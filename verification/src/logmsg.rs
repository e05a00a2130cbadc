//! Log-message handling: rewriting the paths inside a message into their
//! player-facing form, and a logger that collects tagged lines instead of
//! printing them, so the shell can decide where they go.

use vstd::prelude::*;
use crate::findroot::{relative_deemak_path, relative_deemak_path_spec};
use crate::strkit::push_char;

verus! {

/// Whether a character separates words in a message.
pub open spec fn is_ws(c: char) -> bool {
    c == ' ' || c == '\t' || c == '\n' || c == '\r'
}

/// Whether a character is trimmed from a word before it is read as a
/// path: quotes and sentence punctuation.
pub open spec fn is_punc(c: char) -> bool {
    c == '\'' || c == '"' || c == ',' || c == '.' || c == ';'
}

fn is_ws_exec(c: char) -> (r: bool)
    ensures
        r == is_ws(c),
{
    c == ' ' || c == '\t' || c == '\n' || c == '\r'
}

fn is_punc_exec(c: char) -> (r: bool)
    ensures
        r == is_punc(c),
{
    c == '\'' || c == '"' || c == ',' || c == '.' || c == ';'
}

/// A message split at every whitespace character; empty segments are
/// kept here and dropped by `processed_words`.
pub open spec fn split_ws_spec(t: Seq<char>) -> Seq<Seq<char>>
    decreases t.len(),
{
    if t.len() == 0 {
        seq![Seq::empty()]
    } else if is_ws(t.last()) {
        split_ws_spec(t.drop_last()).push(Seq::empty())
    } else {
        let r = split_ws_spec(t.drop_last());
        r.update(r.len() - 1, r.last().push(t.last()))
    }
}

proof fn lemma_split_ws_nonempty(t: Seq<char>)
    ensures
        split_ws_spec(t).len() >= 1,
    decreases t.len(),
{
    if t.len() > 0 {
        lemma_split_ws_nonempty(t.drop_last());
    }
}

/// The index of the first character that is not punctuation, from `i`
/// on; the length when there is none.
pub open spec fn first_non_punc(w: Seq<char>, i: int) -> int
    decreases w.len() - i,
{
    if i < 0 || i >= w.len() {
        w.len() as int
    } else if !is_punc(w[i]) {
        i
    } else {
        first_non_punc(w, i + 1)
    }
}

/// One past the last character that is not punctuation, searching down
/// from `j`; zero when there is none above.
pub open spec fn last_non_punc_end(w: Seq<char>, j: int) -> int
    decreases j,
{
    if j <= 0 {
        0
    } else if !is_punc(w[j - 1]) {
        j
    } else {
        last_non_punc_end(w, j - 1)
    }
}

/// One word of a message with its paths rewritten: the word is trimmed
/// of punctuation, the trimmed core is rewritten as a path, and, if that
/// changed anything, put back between the trimmed-off characters.
pub open spec fn filtered_word(w: Seq<char>, sekai_dir: Option<Seq<char>>) -> Seq<char> {
    let a = first_non_punc(w, 0);
    if a == w.len() {
        w
    } else {
        let b = last_non_punc_end(w, w.len() as int);
        let t = w.subrange(a, b);
        let rep = relative_deemak_path_spec(t, sekai_dir);
        if rep == t {
            w
        } else {
            w.take(a) + rep + w.skip(b)
        }
    }
}

/// The non-empty words of the split message, each rewritten.
pub open spec fn processed_words(segs: Seq<Seq<char>>, sekai_dir: Option<Seq<char>>) -> Seq<Seq<char>>
    decreases segs.len(),
{
    if segs.len() == 0 {
        Seq::empty()
    } else if segs.last().len() == 0 {
        processed_words(segs.drop_last(), sekai_dir)
    } else {
        processed_words(segs.drop_last(), sekai_dir).push(filtered_word(segs.last(), sekai_dir))
    }
}

/// Words joined with single spaces.
pub open spec fn join_sp(words: Seq<Seq<char>>) -> Seq<char>
    decreases words.len(),
{
    if words.len() == 0 {
        Seq::empty()
    } else if words.len() == 1 {
        words[0]
    } else {
        join_sp(words.drop_last()) + seq![' '] + words.last()
    }
}

/// What `filter_msg` produces for a message.
pub open spec fn filter_msg_spec(t: Seq<char>, sekai_dir: Option<Seq<char>>) -> Seq<char> {
    join_sp(processed_words(split_ws_spec(t), sekai_dir))
}

/// The view of an optional world directory argument.
pub open spec fn opt_str_view(sekai_dir: Option<&str>) -> Option<Seq<char>> {
    match sekai_dir {
        Some(d) => Some(d@),
        None => None,
    }
}

#[verifier::loop_isolation(false)]
fn split_ws(t: &str) -> (r: Vec<String>)
    ensures
        r.deep_view() == split_ws_spec(t@),
{
    let n = t.unicode_len();
    let mut segs: Vec<String> = Vec::new();
    let mut cur = String::new();
    let mut i: usize = 0;
    while i < n
        invariant
            i <= n,
            segs.deep_view().push(cur@) == split_ws_spec(t@.take(i as int)),
        decreases n - i,
    {
        let c = t.get_char(i);
        proof {
            assert(t@.take(i + 1 as int).drop_last() =~= t@.take(i as int));
            assert(t@.take(i + 1 as int).last() == t@[i as int]);
        }
        if is_ws_exec(c) {
            segs.push(cur);
            cur = String::new();
            proof {
                assert(segs.deep_view().push(cur@)
                    =~= split_ws_spec(t@.take(i as int)).push(Seq::empty()));
            }
        } else {
            push_char(&mut cur, c);
            proof {
                let old_split = split_ws_spec(t@.take(i as int));
                lemma_split_ws_nonempty(t@.take(i as int));
                assert(old_split.last() == cur@.drop_last());
                assert(segs.deep_view().push(cur@)
                    =~= old_split.update(old_split.len() - 1, old_split.last().push(t@[i as int])));
            }
        }
        i += 1;
    }
    proof {
        assert(t@.take(n as int) =~= t@);
    }
    segs.push(cur);
    proof {
        assert(segs.deep_view() =~= split_ws_spec(t@));
    }
    segs
}

#[verifier::loop_isolation(false)]
fn filter_word(w: &str, sekai_dir: Option<&str>) -> (r: String)
    ensures
        r@ == filtered_word(w@, opt_str_view(sekai_dir)),
{
    let n = w.unicode_len();
    let mut a: usize = 0;
    while a < n && is_punc_exec(w.get_char(a))
        invariant
            a <= n,
            first_non_punc(w@, 0) == first_non_punc(w@, a as int),
        decreases n - a,
    {
        a += 1;
    }
    if a == n {
        return String::from_str(w);
    }
    assert(a < n && !is_punc(w@[a as int]));
    let mut b: usize = n;
    while b > a && is_punc_exec(w.get_char(b - 1))
        invariant
            a < b <= n,
            last_non_punc_end(w@, n as int) == last_non_punc_end(w@, b as int),
        decreases b,
    {
        proof {
            if b - 1 == a {
                assert(!is_punc(w@[a as int]));
                assert(false);
            }
        }
        b -= 1;
    }
    proof {
        assert(b > a);
        assert(last_non_punc_end(w@, b as int) == b);
    }
    let t = w.substring_char(a, b);
    let rep = relative_deemak_path(t, sekai_dir);
    if crate::strkit::str_eq(rep.as_str(), t) {
        String::from_str(w)
    } else {
        let mut out = String::from_str(w.substring_char(0, a));
        out.append(rep.as_str());
        out.append(w.substring_char(b, n));
        proof {
            assert(out@ =~= w@.take(a as int)
                + relative_deemak_path_spec(w@.subrange(a as int, b as int), opt_str_view(sekai_dir))
                + w@.skip(b as int));
        }
        out
    }
}

/// Rewrite every path inside a message into its player-facing form,
/// word by word: words are trimmed of punctuation, rewritten with
/// `relative_deemak_path`, and joined back with single spaces.
#[verifier::loop_isolation(false)]
pub fn filter_msg(message: &str, sekai_dir: Option<&str>) -> (r: String)
    ensures
        r@ == filter_msg_spec(message@, opt_str_view(sekai_dir)),
{
    let segs = split_ws(message);
    let ghost all = split_ws_spec(message@);
    let mut words: Vec<String> = Vec::new();
    let m = segs.len();
    let mut j: usize = 0;
    while j < m
        invariant
            j <= m,
            m == all.len(),
            segs.deep_view() == all,
            words.deep_view() == processed_words(all.take(j as int), opt_str_view(sekai_dir)),
        decreases m - j,
    {
        proof {
            assert(all.take(j + 1 as int).drop_last() =~= all.take(j as int));
            assert(all.take(j + 1 as int).last() == all[j as int]);
        }
        if segs[j].unicode_len() > 0 {
            let fw = filter_word(segs[j].as_str(), sekai_dir);
            words.push(fw);
            proof {
                assert(words.deep_view()
                    =~= processed_words(all.take(j + 1 as int), opt_str_view(sekai_dir)));
            }
        }
        j += 1;
    }
    proof {
        assert(all.take(m as int) =~= all);
    }
    let ghost ws = processed_words(all, opt_str_view(sekai_dir));
    if words.len() == 0 {
        return String::new();
    }
    let mut out = words[0].clone();
    let wn = words.len();
    let mut k: usize = 1;
    while k < wn
        invariant
            1 <= k <= wn,
            wn == ws.len(),
            words.deep_view() == ws,
            out@ == join_sp(ws.take(k as int)),
        decreases wn - k,
    {
        push_char(&mut out, ' ');
        out.append(words[k].as_str());
        proof {
            assert(ws.take(k + 1 as int).drop_last() =~= ws.take(k as int));
            assert(ws.take(k + 1 as int).last() == ws[k as int]);
            assert(out@ =~= join_sp(ws.take(k + 1 as int)));
        }
        k += 1;
    }
    proof {
        assert(ws.take(wn as int) =~= ws);
    }
    out
}

/// Whether developer logging is on: an unset flag means off.
pub fn debug_mode(dev_mode: Option<bool>) -> (r: bool)
    ensures
        r == (dev_mode == Some(true)),
{
    match dev_mode {
        Some(b) => b,
        None => false,
    }
}

/// A sink for tagged log lines. The shell owns one and decides where the
/// collected lines go.
pub struct Logger {
    /// Whether developer logging is on; with it off nothing is recorded.
    pub dev_mode: bool,
    /// The recorded lines, oldest first.
    pub lines: Vec<String>,
}

/// The line a log call records: its tag, the feature, a separator, and
/// the filtered message.
pub open spec fn log_line(tag: Seq<char>, feature: Seq<char>, message: Seq<char>) -> Seq<char> {
    tag + feature + " :: "@ + filter_msg_spec(message, None)
}

impl Logger {
    /// A logger with no lines recorded yet.
    pub fn new(dev_mode: bool) -> (r: Logger)
        ensures
            r.dev_mode == dev_mode,
            r.lines@.len() == 0,
    {
        Logger { dev_mode, lines: Vec::new() }
    }

    fn log_tagged(&mut self, tag: &str, feature: &str, message: &str)
        ensures
            final(self).dev_mode == old(self).dev_mode,
            old(self).dev_mode ==> final(self).lines@.len() == old(self).lines@.len() + 1
                && final(self).lines@.last()@ == log_line(tag@, feature@, message@)
                && final(self).lines@.take(old(self).lines@.len() as int) == old(self).lines@,
            !old(self).dev_mode ==> *final(self) == *old(self),
    {
        if self.dev_mode {
            let mut line = String::from_str(tag);
            line.append(feature);
            line.append(" :: ");
            let filtered = filter_msg(message, None);
            line.append(filtered.as_str());
            self.lines.push(line);
            proof {
                assert(self.lines@.take(old(self).lines@.len() as int) =~= old(self).lines@);
            }
        }
    }

    /// Record a debugging line.
    pub fn log_debug(&mut self, feature: &str, message: &str)
        ensures
            final(self).dev_mode == old(self).dev_mode,
            old(self).dev_mode ==> final(self).lines@.len() == old(self).lines@.len() + 1
                && final(self).lines@.last()@ == log_line("[DEBUG] "@, feature@, message@)
                && final(self).lines@.take(old(self).lines@.len() as int) == old(self).lines@,
            !old(self).dev_mode ==> *final(self) == *old(self),
    {
        self.log_tagged("[DEBUG] ", feature, message);
    }

    /// Record an informational line.
    pub fn log_info(&mut self, feature: &str, message: &str)
        ensures
            final(self).dev_mode == old(self).dev_mode,
            old(self).dev_mode ==> final(self).lines@.len() == old(self).lines@.len() + 1
                && final(self).lines@.last()@ == log_line("[INFO] "@, feature@, message@)
                && final(self).lines@.take(old(self).lines@.len() as int) == old(self).lines@,
            !old(self).dev_mode ==> *final(self) == *old(self),
    {
        self.log_tagged("[INFO] ", feature, message);
    }

    /// Record a warning line.
    pub fn log_warning(&mut self, feature: &str, message: &str)
        ensures
            final(self).dev_mode == old(self).dev_mode,
            old(self).dev_mode ==> final(self).lines@.len() == old(self).lines@.len() + 1
                && final(self).lines@.last()@ == log_line("[WARNING] "@, feature@, message@)
                && final(self).lines@.take(old(self).lines@.len() as int) == old(self).lines@,
            !old(self).dev_mode ==> *final(self) == *old(self),
    {
        self.log_tagged("[WARNING] ", feature, message);
    }

    /// Record an error line.
    pub fn log_error(&mut self, feature: &str, message: &str)
        ensures
            final(self).dev_mode == old(self).dev_mode,
            old(self).dev_mode ==> final(self).lines@.len() == old(self).lines@.len() + 1
                && final(self).lines@.last()@ == log_line("[ERROR] "@, feature@, message@)
                && final(self).lines@.take(old(self).lines@.len() as int) == old(self).lines@,
            !old(self).dev_mode ==> *final(self) == *old(self),
    {
        self.log_tagged("[ERROR] ", feature, message);
    }
}

/// Record that a clean-up step failed, consistently phrased.
pub fn log_cleanup_warning(logger: &mut Logger, context: &str, path_display: &str, error: &str)
    ensures
        final(logger).dev_mode == old(logger).dev_mode,
        old(logger).dev_mode ==> final(logger).lines@.len() == old(logger).lines@.len() + 1
            && final(logger).lines@.last()@ == log_line("[WARNING] "@, "Cleanup"@,
                "Failed to "@ + context@ + seq![' '] + path_display@ + ": "@ + error@)
            && final(logger).lines@.take(old(logger).lines@.len() as int) == old(logger).lines@,
        !old(logger).dev_mode ==> *final(logger) == *old(logger),
{
    let mut m = String::from_str("Failed to ");
    m.append(context);
    push_char(&mut m, ' ');
    m.append(path_display);
    m.append(": ");
    m.append(error);
    proof {
        assert(m@ =~= "Failed to "@ + context@ + seq![' '] + path_display@ + ": "@ + error@);
    }
    logger.log_warning("Cleanup", m.as_str());
}

/// Record that a clean-up step succeeded, consistently phrased.
pub fn log_cleanup_success(logger: &mut Logger, context: &str, path_display: &str)
    ensures
        final(logger).dev_mode == old(logger).dev_mode,
        old(logger).dev_mode ==> final(logger).lines@.len() == old(logger).lines@.len() + 1
            && final(logger).lines@.last()@ == log_line("[INFO] "@, "Cleanup"@,
                "Successfully "@ + context@ + seq![' '] + path_display@)
            && final(logger).lines@.take(old(logger).lines@.len() as int) == old(logger).lines@,
        !old(logger).dev_mode ==> *final(logger) == *old(logger),
{
    let mut m = String::from_str("Successfully ");
    m.append(context);
    push_char(&mut m, ' ');
    m.append(path_display);
    proof {
        assert(m@ =~= "Successfully "@ + context@ + seq![' '] + path_display@);
    }
    logger.log_info("Cleanup", m.as_str());
}

/// The message `log_result` records: success as information, failure as
/// a warning carrying the error.
pub open spec fn log_result_line(
    feature: Seq<char>,
    result: Result<(), Seq<char>>,
    message: Seq<char>,
) -> Seq<char> {
    match result {
        Ok(_) => log_line("[INFO] "@, feature, "Success: "@ + filter_msg_spec(message, None)),
        Err(e) => log_line(
            "[WARNING] "@, feature, "Failed: "@ + filter_msg_spec(message, None) + ": "@ + e,
        ),
    }
}

/// Record the outcome of an operation: information on success, a warning
/// carrying the error on failure.
pub fn log_result(logger: &mut Logger, feature: &str, result: Result<(), String>, message: &str)
    ensures
        final(logger).dev_mode == old(logger).dev_mode,
        old(logger).dev_mode ==> final(logger).lines@.len() == old(logger).lines@.len() + 1
            && final(logger).lines@.last()@ == log_result_line(feature@, (match result {
                Ok(_) => Ok(()),
                Err(e) => Err(e@),
            }), message@)
            && final(logger).lines@.take(old(logger).lines@.len() as int) == old(logger).lines@,
        !old(logger).dev_mode ==> *final(logger) == *old(logger),
{
    match result {
        Ok(_) => {
            let mut m = String::from_str("Success: ");
            let filtered = filter_msg(message, None);
            m.append(filtered.as_str());
            logger.log_info(feature, m.as_str());
        }
        Err(e) => {
            let mut m = String::from_str("Failed: ");
            let filtered = filter_msg(message, None);
            m.append(filtered.as_str());
            m.append(": ");
            m.append(e.as_str());
            logger.log_warning(feature, m.as_str());
        }
    }
}

} // verus!
