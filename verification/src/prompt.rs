use vstd::prelude::*;

verus! {

/// A line read from the terminal without the line-break characters (`\n`
/// and `\r`) at its end.
pub open spec fn spec_trim_line_end(line: Seq<char>) -> Seq<char>
    decreases line.len(),
{
    if line.len() > 0 && (line.last() == '\n' || line.last() == '\r') {
        spec_trim_line_end(line.drop_last())
    } else {
        line
    }
}

/// Removes every `\n` and `\r` at the end of `line`.
pub fn trim_line_end(line: &str) -> (r: String)
    ensures
        r@ == spec_trim_line_end(line@),
{
    let n = line.unicode_len();
    let mut k: usize = n;
    assert(line@.subrange(0, n as int) =~= line@);
    while k > 0 && (line.get_char(k - 1) == '\n' || line.get_char(k - 1) == '\r')
        invariant
            n == line@.len(),
            k <= n,
            spec_trim_line_end(line@) == spec_trim_line_end(line@.subrange(0, k as int)),
        decreases k,
    {
        assert(line@.subrange(0, k as int).drop_last() =~= line@.subrange(0, k - 1));
        k = k - 1;
    }
    let kept = line.substring_char(0, k);
    proof {
        let s = line@.subrange(0, k as int);
        assert(!(s.len() > 0 && (s.last() == '\n' || s.last() == '\r')));
    }
    String::from_str(kept)
}

/// Trimming the line end leaves no line break at the end, keeps a prefix of
/// the line, and trimming again changes nothing.
pub proof fn lemma_trim_line_end(line: Seq<char>)
    ensures
        spec_trim_line_end(line).len() <= line.len(),
        spec_trim_line_end(line) == line.subrange(0, spec_trim_line_end(line).len() as int),
        spec_trim_line_end(line).len() > 0 ==> spec_trim_line_end(line).last() != '\n'
            && spec_trim_line_end(line).last() != '\r',
        spec_trim_line_end(spec_trim_line_end(line)) == spec_trim_line_end(line),
    decreases line.len(),
{
    if line.len() > 0 && (line.last() == '\n' || line.last() == '\r') {
        lemma_trim_line_end(line.drop_last());
        let t = spec_trim_line_end(line.drop_last());
        assert(line.drop_last().subrange(0, t.len() as int) =~= line.subrange(0, t.len() as int));
    } else {
        assert(line.subrange(0, line.len() as int) =~= line);
    }
}

/// The text that `str::trim` leaves of `s`: `s` without the Unicode white
/// space at either end.
pub uninterp spec fn spec_trim(s: Seq<char>) -> Seq<char>;

/// The text that `str::to_lowercase` makes of `s`.
pub uninterp spec fn spec_lowercase(s: Seq<char>) -> Seq<char>;

/// Calls `str::trim`; the result is the name above of the argument.
#[verifier::external_body]
fn trim(s: &str) -> (r: String)
    ensures
        r@ == spec_trim(s@),
{
    s.trim().to_string()
}

/// Calls `str::to_lowercase`; the result is the name above of the argument.
#[verifier::external_body]
fn lowercase(s: &str) -> (r: String)
    ensures
        r@ == spec_lowercase(s@),
{
    s.to_lowercase()
}

/// How a yes/no answer was read.
#[derive(Debug, Clone, Copy, PartialEq, Eq, Structural)]
pub enum Answer {
    Yes,
    No,
    /// Neither; it counts as no, and the user is told so.
    Invalid,
}

/// How an answer, already trimmed and in lower case, is read: `y`, `yes`
/// and nothing at all are yes; `n` and `no` are no.
pub open spec fn spec_answer_of(normal: Seq<char>) -> Answer {
    if normal == "y"@ || normal == "yes"@ || normal == ""@ {
        Answer::Yes
    } else if normal == "n"@ || normal == "no"@ {
        Answer::No
    } else {
        Answer::Invalid
    }
}

/// Reads an answer that is already trimmed and in lower case.
pub fn answer_of(normal: &str) -> (r: Answer)
    ensures
        r == spec_answer_of(normal@),
{
    let normal = String::from_str(normal);
    if normal == String::from_str("y") || normal == String::from_str("yes") || normal
        == String::from_str("") {
        Answer::Yes
    } else if normal == String::from_str("n") || normal == String::from_str("no") {
        Answer::No
    } else {
        Answer::Invalid
    }
}

/// Reads a yes/no answer typed by the user, ignoring the case of letters and
/// white space at either end.
pub fn parse_answer(response: &str) -> (r: Answer)
    ensures
        r == spec_answer_of(spec_lowercase(spec_trim(response@))),
{
    let trimmed = trim(response);
    let normal = lowercase(trimmed.as_str());
    answer_of(normal.as_str())
}

/// Whether an answer means yes.
pub fn is_yes(a: Answer) -> (r: bool)
    ensures
        r == (a == Answer::Yes),
{
    a == Answer::Yes
}

/// The text that is shown when an answer could not be read.
pub fn invalid_answer_notice() -> (r: String)
    ensures
        r@ == "Input was invalid, assuming no!"@,
{
    String::from_str("Input was invalid, assuming no!")
}

} // verus!
