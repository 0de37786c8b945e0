//! The model driver's shader front end.
//!
//! Stage sources are byte text.  The front end accepts a source when every
//! line is terminated (a trimmed line is blank, a `#` directive, a `//`
//! comment, or ends in `;`, `{` or `}`), the braces balance, and at least
//! one line holds code.  Rejections come with a deterministic diagnostic
//! naming the first offending line.  The same line structure feeds the
//! link-time interface match and the uniform table: an `out` declaration
//! of the vertex stage supplies the `in` declaration of the fragment
//! stage with the same type and name, and `uniform` declarations yield
//! the program's uniform names in declaration order.

use vstd::prelude::*;
use vstd::string::StringExecFns;

use crate::context::views_of;

verus! {

/// Horizontal whitespace: space, tab, carriage return.
pub open spec fn is_blank(b: u8) -> bool {
    b == 32 || b == 9 || b == 13
}

/// Index of the first non-blank byte at or after `i`, or `s.len()`.
pub open spec fn scan_nonblank(s: Seq<u8>, i: int) -> int
    decreases s.len() - i
    when 0 <= i <= s.len()
{
    if i == s.len() {
        i
    } else if !is_blank(s[i]) {
        i
    } else {
        scan_nonblank(s, i + 1)
    }
}

/// One past the last non-blank byte strictly before `i`, or 0.
pub open spec fn scan_nonblank_back(s: Seq<u8>, i: int) -> int
    decreases i
    when 0 <= i <= s.len()
{
    if i == 0 {
        i
    } else if !is_blank(s[i - 1]) {
        i
    } else {
        scan_nonblank_back(s, i - 1)
    }
}

/// `s` with leading and trailing blanks removed.
pub open spec fn trim(s: Seq<u8>) -> Seq<u8> {
    if scan_nonblank(s, 0) == s.len() {
        Seq::empty()
    } else {
        s.subrange(scan_nonblank(s, 0), scan_nonblank_back(s, s.len() as int))
    }
}

pub proof fn lemma_scan_nonblank(s: Seq<u8>, i: int)
    requires
        0 <= i <= s.len(),
    ensures
        i <= scan_nonblank(s, i) <= s.len(),
        scan_nonblank(s, i) < s.len() ==> !is_blank(s[scan_nonblank(s, i)]),
        forall|j: int| i <= j < scan_nonblank(s, i) ==> is_blank(s[j]),
    decreases s.len() - i,
{
    if i < s.len() && is_blank(s[i]) {
        lemma_scan_nonblank(s, i + 1);
    }
}

pub proof fn lemma_scan_nonblank_back(s: Seq<u8>, i: int)
    requires
        0 <= i <= s.len(),
    ensures
        0 <= scan_nonblank_back(s, i) <= i,
        scan_nonblank_back(s, i) > 0 ==> !is_blank(s[scan_nonblank_back(s, i) - 1]),
        forall|j: int| scan_nonblank_back(s, i) <= j < i ==> is_blank(s[j]),
    decreases i,
{
    if i > 0 && is_blank(s[i - 1]) {
        lemma_scan_nonblank_back(s, i - 1);
    }
}

/// When some byte is non-blank, the trimmed region is non-empty and well
/// delimited.
pub proof fn lemma_trim_bounds(s: Seq<u8>)
    requires
        scan_nonblank(s, 0) < s.len(),
    ensures
        scan_nonblank(s, 0) < scan_nonblank_back(s, s.len() as int) <= s.len(),
        trim(s).len() == scan_nonblank_back(s, s.len() as int) - scan_nonblank(s, 0),
{
    lemma_scan_nonblank(s, 0);
    lemma_scan_nonblank_back(s, s.len() as int);
    let a = scan_nonblank(s, 0);
    let e = scan_nonblank_back(s, s.len() as int);
    if e <= a {
        assert(is_blank(s[a]));
    }
}

fn blank_byte(b: u8) -> (r: bool)
    ensures
        r == is_blank(b),
{
    b == 32 || b == 9 || b == 13
}

/// First non-blank position in `s` at or after `from`.
fn find_nonblank(s: &[u8], from: usize) -> (r: usize)
    requires
        from <= s@.len(),
    ensures
        r == scan_nonblank(s@, from as int),
{
    let n = s.len();
    let mut i = from;
    while i < n
        invariant
            from <= i <= n,
            n == s@.len(),
            scan_nonblank(s@, from as int) == scan_nonblank(s@, i as int),
        decreases n - i,
    {
        if !blank_byte(s[i]) {
            return i;
        }
        i = i + 1;
    }
    i
}

/// One past the last non-blank position in `s` strictly before `upto`.
fn find_nonblank_back(s: &[u8], upto: usize) -> (r: usize)
    requires
        upto <= s@.len(),
    ensures
        r == scan_nonblank_back(s@, upto as int),
{
    let mut i = upto;
    while i > 0
        invariant
            i <= upto <= s@.len(),
            scan_nonblank_back(s@, upto as int) == scan_nonblank_back(s@, i as int),
        decreases i,
    {
        if !blank_byte(s[i - 1]) {
            return i;
        }
        i = i - 1;
    }
    i
}

/// The bytes `s[a..e]` as a fresh vector.
pub(crate) fn copy_range(s: &[u8], a: usize, e: usize) -> (r: Vec<u8>)
    requires
        a <= e <= s@.len(),
    ensures
        r@ == s@.subrange(a as int, e as int),
{
    let mut r: Vec<u8> = Vec::new();
    let mut i = a;
    while i < e
        invariant
            a <= i <= e <= s@.len(),
            r@ == s@.subrange(a as int, i as int),
        decreases e - i,
    {
        r.push(s[i]);
        i = i + 1;
        proof {
            assert(r@ =~= s@.subrange(a as int, i as int));
        }
    }
    r
}

/// `trim(line)` as a fresh vector.
fn trim_copy(line: &[u8]) -> (r: Vec<u8>)
    ensures
        r@ == trim(line@),
{
    proof {
        lemma_scan_nonblank(line@, 0);
    }
    let a = find_nonblank(line, 0);
    if a == line.len() {
        let r: Vec<u8> = Vec::new();
        proof {
            assert(r@ =~= trim(line@));
        }
        r
    } else {
        proof {
            lemma_trim_bounds(line@);
        }
        let e = find_nonblank_back(line, line.len());
        copy_range(line, a, e)
    }
}

/// The source, split at newline bytes; the separator is consumed.  A
/// source with no newline is one line; every newline opens a new line.
pub open spec fn split_lines(s: Seq<u8>) -> Seq<Seq<u8>>
    decreases s.len(),
{
    if s.len() == 0 {
        seq![Seq::empty()]
    } else {
        let prev = split_lines(s.drop_last());
        if s.last() == 10 {
            prev.push(Seq::empty())
        } else {
            prev.update(prev.len() - 1, prev.last().push(s.last()))
        }
    }
}

pub proof fn lemma_split_lines_len(s: Seq<u8>)
    ensures
        split_lines(s).len() >= 1,
        split_lines(s).len() <= s.len() + 1,
    decreases s.len(),
{
    if s.len() > 0 {
        lemma_split_lines_len(s.drop_last());
    }
}

/// Splits a source into its lines.
pub fn split_source_lines(src: &[u8]) -> (lines: Vec<Vec<u8>>)
    ensures
        views_of(lines@) == split_lines(src@),
        lines@.len() >= 1,
        lines@.len() <= src@.len() + 1,
{
    let n = src.len();
    let mut done: Vec<Vec<u8>> = Vec::new();
    let mut cur: Vec<u8> = Vec::new();
    let mut i: usize = 0;
    proof {
        assert(views_of(done@).push(cur@) =~= split_lines(
            src@.subrange(0, 0),
        ));
    }
    while i < n
        invariant
            i <= n,
            n == src@.len(),
            done@.len() <= i,
            views_of(done@).push(cur@) == split_lines(src@.subrange(0, i as int)),
        decreases n - i,
    {
        let ghost pre = src@.subrange(0, i as int);
        let ghost post = src@.subrange(0, i + 1);
        proof {
            assert(post.drop_last() =~= pre);
            assert(post.last() == src@[i as int]);
        }
        let b = src[i];
        if b == 10 {
            done.push(cur);
            cur = Vec::new();
            proof {
                assert(views_of(done@).push(cur@) =~= split_lines(post));
            }
        } else {
            cur.push(b);
            proof {
                assert(views_of(done@).push(cur@) =~= split_lines(post));
            }
        }
        i = i + 1;
    }
    proof {
        assert(src@.subrange(0, n as int) =~= src@);
        lemma_split_lines_len(src@);
    }
    done.push(cur);
    proof {
        assert(views_of(done@) =~= split_lines(src@));
    }
    done
}

/// A line the front end accepts: blank, a `#` directive, a `//` comment,
/// or terminated by `;`, `{` or `}`.
pub open spec fn line_ok(line: Seq<u8>) -> bool {
    let t = trim(line);
    ||| t.len() == 0
    ||| t[0] == 35
    ||| (t.len() >= 2 && t[0] == 47 && t[1] == 47)
    ||| t.last() == 59
    ||| t.last() == 123
    ||| t.last() == 125
}

/// A line holding nothing but blanks.
pub open spec fn blank_line(line: Seq<u8>) -> bool {
    trim(line).len() == 0
}

fn check_line(line: &[u8]) -> (r: bool)
    ensures
        r == line_ok(line@),
{
    proof {
        lemma_scan_nonblank(line@, 0);
    }
    let a = find_nonblank(line, 0);
    if a == line.len() {
        return true;
    }
    proof {
        lemma_trim_bounds(line@);
    }
    let e = find_nonblank_back(line, line.len());
    if line[a] == 35 {
        return true;
    }
    if e - a >= 2 && line[a] == 47 && line[a + 1] == 47 {
        return true;
    }
    let last = line[e - 1];
    last == 59 || last == 123 || last == 125
}

fn check_blank_line(line: &[u8]) -> (r: bool)
    ensures
        r == blank_line(line@),
{
    proof {
        lemma_scan_nonblank(line@, 0);
        if scan_nonblank(line@, 0) < line@.len() {
            lemma_trim_bounds(line@);
        }
    }
    let a = find_nonblank(line, 0);
    a == line.len()
}

/// Some line of the source holds code.
pub open spec fn has_code(s: Seq<u8>) -> bool {
    exists|i: int|
        0 <= i < split_lines(s).len() && !blank_line(#[trigger] split_lines(s)[i])
}

/// Every line of the source is acceptable.
pub open spec fn lines_ok(s: Seq<u8>) -> bool {
    forall|i: int| 0 <= i < split_lines(s).len() ==> line_ok(#[trigger] split_lines(s)[i])
}

/// Index of the first unacceptable line at or after `i`, or `lines.len()`.
pub open spec fn scan_bad_line(lines: Seq<Seq<u8>>, i: int) -> int
    decreases lines.len() - i
    when 0 <= i <= lines.len()
{
    if i == lines.len() {
        i
    } else if !line_ok(lines[i]) {
        i
    } else {
        scan_bad_line(lines, i + 1)
    }
}

pub proof fn lemma_scan_bad_line(lines: Seq<Seq<u8>>, i: int)
    requires
        0 <= i <= lines.len(),
    ensures
        i <= scan_bad_line(lines, i) <= lines.len(),
        scan_bad_line(lines, i) < lines.len() ==> !line_ok(lines[scan_bad_line(lines, i)]),
        forall|j: int| i <= j < scan_bad_line(lines, i) ==> line_ok(lines[j]),
    decreases lines.len() - i,
{
    if i < lines.len() && line_ok(lines[i]) {
        lemma_scan_bad_line(lines, i + 1);
    }
}

/// Zero-based index of the first unacceptable line.
pub open spec fn first_bad_line(s: Seq<u8>) -> int {
    scan_bad_line(split_lines(s), 0)
}

/// +1 for `{`, -1 for `}`, 0 otherwise.
pub open spec fn brace_delta(b: u8) -> int {
    if b == 123 {
        1
    } else if b == 125 {
        -1
    } else {
        0
    }
}

/// Net brace nesting over the whole of `s`.
pub open spec fn brace_depth(s: Seq<u8>) -> int
    decreases s.len(),
{
    if s.len() == 0 {
        0
    } else {
        brace_depth(s.drop_last()) + brace_delta(s.last())
    }
}

/// Braces close what they opened and never close more: the nesting depth
/// of every prefix is non-negative and the whole source nets to zero.
pub open spec fn braces_ok(s: Seq<u8>) -> bool {
    brace_depth(s) == 0 && forall|i: int|
        0 <= i <= s.len() ==> brace_depth(#[trigger] s.subrange(0, i)) >= 0
}

fn check_braces(src: &[u8]) -> (r: bool)
    ensures
        r == braces_ok(src@),
{
    let n = src.len();
    let mut depth: usize = 0;
    let mut i: usize = 0;
    proof {
        assert(src@.subrange(0, 0) =~= Seq::<u8>::empty());
    }
    while i < n
        invariant
            i <= n,
            n == src@.len(),
            depth <= i,
            depth == brace_depth(src@.subrange(0, i as int)),
            forall|j: int| 0 <= j <= i ==> brace_depth(#[trigger] src@.subrange(0, j)) >= 0,
        decreases n - i,
    {
        let ghost pre = src@.subrange(0, i as int);
        let ghost post = src@.subrange(0, i + 1);
        proof {
            assert(post.drop_last() =~= pre);
            assert(post.last() == src@[i as int]);
        }
        let b = src[i];
        if b == 123 {
            depth = depth + 1;
        } else if b == 125 {
            if depth == 0 {
                assert(brace_depth(post) < 0);
                return false;
            }
            depth = depth - 1;
        }
        i = i + 1;
    }
    proof {
        assert(src@.subrange(0, n as int) =~= src@);
    }
    depth == 0
}

/// The character standing for decimal digit `d`.
pub open spec fn digit_char(d: int) -> char {
    if d == 0 {
        '0'
    } else if d == 1 {
        '1'
    } else if d == 2 {
        '2'
    } else if d == 3 {
        '3'
    } else if d == 4 {
        '4'
    } else if d == 5 {
        '5'
    } else if d == 6 {
        '6'
    } else if d == 7 {
        '7'
    } else if d == 8 {
        '8'
    } else {
        '9'
    }
}

/// The decimal digits of `n`, most significant first, no leading zero.
pub open spec fn dec_digits(n: int) -> Seq<char>
    decreases n
    when n >= 0
{
    if n < 10 {
        seq![digit_char(n)]
    } else {
        dec_digits(n / 10).push(digit_char(n % 10))
    }
}

fn digit_str(d: u64) -> (r: &'static str)
    requires
        d < 10,
    ensures
        r@ == seq![digit_char(d as int)],
{
    proof {
        reveal_strlit("0");
        reveal_strlit("1");
        reveal_strlit("2");
        reveal_strlit("3");
        reveal_strlit("4");
        reveal_strlit("5");
        reveal_strlit("6");
        reveal_strlit("7");
        reveal_strlit("8");
        reveal_strlit("9");
    }
    let r = if d == 0 {
        "0"
    } else if d == 1 {
        "1"
    } else if d == 2 {
        "2"
    } else if d == 3 {
        "3"
    } else if d == 4 {
        "4"
    } else if d == 5 {
        "5"
    } else if d == 6 {
        "6"
    } else if d == 7 {
        "7"
    } else if d == 8 {
        "8"
    } else {
        "9"
    };
    proof {
        assert(r@ =~= seq![digit_char(d as int)]);
    }
    r
}

/// Appends the decimal rendering of `n` to `out`.
fn push_decimal(out: &mut String, n: u64)
    ensures
        final(out)@ == old(out)@ + dec_digits(n as int),
    decreases n,
{
    if n >= 10 {
        push_decimal(out, n / 10);
    }
    out.append(digit_str(n % 10));
    proof {
        assert(out@ =~= old(out)@ + dec_digits(n as int));
    }
}

/// The diagnostic the front end reports for a rejected source: the checks
/// run in a fixed order, so the message is deterministic.
pub open spec fn compile_diag(s: Seq<u8>) -> Seq<char> {
    if !has_code(s) {
        "ERROR: shader source is empty"@
    } else if !lines_ok(s) {
        "ERROR: 0:"@ + dec_digits(first_bad_line(s) + 1) + ": statement not terminated"@
    } else {
        "ERROR: unbalanced braces in shader source"@
    }
}

/// The front end's verdict on one stage source.
pub open spec fn compile_accepts(s: Seq<u8>) -> bool {
    has_code(s) && lines_ok(s) && braces_ok(s)
}

/// Runs the front end on one stage source: `None` when the source is
/// accepted, otherwise the diagnostic.
pub fn check_stage_source(src: &[u8]) -> (r: Option<String>)
    ensures
        r is None <==> compile_accepts(src@),
        r is Some ==> r.unwrap()@ == compile_diag(src@),
{
    let lines = split_source_lines(src);
    let ghost lseq = views_of(lines@);
    let m = lines.len();
    let mut code_seen = false;
    let mut k: usize = 0;
    while k < m
        invariant
            k <= m,
            m == lines@.len(),
            lseq == views_of(lines@),
            lseq == split_lines(src@),
            code_seen <==> exists|i: int| 0 <= i < k && !blank_line(#[trigger] lseq[i]),
            scan_bad_line(lseq, 0) == scan_bad_line(lseq, k as int),
        decreases m - k,
    {
        if !check_blank_line(lines[k].as_slice()) {
            proof {
                assert(!blank_line(lseq[k as int]));
            }
            code_seen = true;
        }
        if !check_line(lines[k].as_slice()) {
            // `k` is the first unacceptable line; such a line is not
            // blank, so the source is not empty either.
            proof {
                assert(scan_bad_line(lseq, k as int) == k);
                lemma_split_lines_len(src@);
                assert(!blank_line(lseq[k as int]));
                assert(has_code(src@));
            }
            return Some(build_line_diag(src, k));
        }
        k = k + 1;
    }
    proof {
        lemma_scan_bad_line(lseq, 0);
        assert(lines_ok(src@)) by {
            assert(forall|i: int|
                0 <= i < lseq.len() ==> line_ok(#[trigger] lseq[i]));
        }
    }
    if !code_seen {
        proof {
            assert(!has_code(src@));
        }
        return Some(String::from_str("ERROR: shader source is empty"));
    }
    proof {
        assert(has_code(src@));
    }
    if !check_braces(src) {
        proof {
            assert(compile_diag(src@) =~= "ERROR: unbalanced braces in shader source"@);
        }
        return Some(String::from_str("ERROR: unbalanced braces in shader source"));
    }
    None
}

/// Builds the unterminated-statement diagnostic for zero-based line `k`.
fn build_line_diag(src: &[u8], k: usize) -> (r: String)
    requires
        has_code(src@),
        scan_bad_line(split_lines(src@), 0) == k,
        k < split_lines(src@).len(),
        k < usize::MAX,
    ensures
        r@ == compile_diag(src@),
{
    proof {
        lemma_split_lines_len(src@);
        lemma_scan_bad_line(split_lines(src@), 0);
        assert(!line_ok(split_lines(src@)[k as int]));
        assert(!lines_ok(src@));
    }
    let mut m = String::from_str("ERROR: 0:");
    push_decimal(&mut m, (k as u64) + 1);
    m.append(": statement not terminated");
    proof {
        assert(m@ =~= compile_diag(src@));
    }
    m
}


/// The byte text `out ` opening a vertex-stage output declaration.
pub open spec fn kw_out() -> Seq<u8> {
    seq![111u8, 117u8, 116u8, 32u8]
}

/// The byte text `in ` opening a fragment-stage input declaration.
pub open spec fn kw_in() -> Seq<u8> {
    seq![105u8, 110u8, 32u8]
}

/// The byte text `uniform ` opening a uniform declaration.
pub open spec fn kw_uniform() -> Seq<u8> {
    seq![117u8, 110u8, 105u8, 102u8, 111u8, 114u8, 109u8, 32u8]
}

pub open spec fn starts_with(s: Seq<u8>, p: Seq<u8>) -> bool {
    p.len() <= s.len() && s.subrange(0, p.len() as int) == p
}

/// A line declaring a vertex-stage output.
pub open spec fn is_out_line(line: Seq<u8>) -> bool {
    starts_with(trim(line), kw_out())
}

/// A line declaring a fragment-stage input.
pub open spec fn is_in_line(line: Seq<u8>) -> bool {
    starts_with(trim(line), kw_in())
}

/// A line declaring a uniform.
pub open spec fn is_uniform_line(line: Seq<u8>) -> bool {
    starts_with(trim(line), kw_uniform())
}

/// The declaration text after `out `, type and name included.
pub open spec fn out_decl(line: Seq<u8>) -> Seq<u8> {
    trim(line).subrange(kw_out().len() as int, trim(line).len() as int)
}

/// The declaration text after `in `, type and name included.
pub open spec fn in_decl(line: Seq<u8>) -> Seq<u8> {
    trim(line).subrange(kw_in().len() as int, trim(line).len() as int)
}

/// Some vertex-stage line declares exactly this output.
pub open spec fn vertex_provides(vs: Seq<u8>, d: Seq<u8>) -> bool {
    exists|i: int|
        0 <= i < split_lines(vs).len() && is_out_line(#[trigger] split_lines(vs)[i])
            && out_decl(split_lines(vs)[i]) == d
}

/// Every fragment-stage input declaration is written by a vertex-stage
/// output declaration of the same type and name.
pub open spec fn link_accepts(vs: Seq<u8>, fs: Seq<u8>) -> bool {
    forall|i: int|
        0 <= i < split_lines(fs).len() && is_in_line(#[trigger] split_lines(fs)[i])
            ==> vertex_provides(vs, in_decl(split_lines(fs)[i]))
}

/// Index of the first fragment line at or after `i` whose input has no
/// matching vertex output, or `fls.len()`.
pub open spec fn scan_unmatched(fls: Seq<Seq<u8>>, vs: Seq<u8>, i: int) -> int
    decreases fls.len() - i
    when 0 <= i <= fls.len()
{
    if i == fls.len() {
        i
    } else if is_in_line(fls[i]) && !vertex_provides(vs, in_decl(fls[i])) {
        i
    } else {
        scan_unmatched(fls, vs, i + 1)
    }
}

pub proof fn lemma_scan_unmatched(fls: Seq<Seq<u8>>, vs: Seq<u8>, i: int)
    requires
        0 <= i <= fls.len(),
    ensures
        i <= scan_unmatched(fls, vs, i) <= fls.len(),
        scan_unmatched(fls, vs, i) < fls.len() ==> is_in_line(fls[scan_unmatched(fls, vs, i)])
            && !vertex_provides(vs, in_decl(fls[scan_unmatched(fls, vs, i)])),
        forall|j: int|
            i <= j < scan_unmatched(fls, vs, i) && is_in_line(fls[j]) ==> vertex_provides(
                vs,
                in_decl(fls[j]),
            ),
    decreases fls.len() - i,
{
    if i < fls.len() && !(is_in_line(fls[i]) && !vertex_provides(vs, in_decl(fls[i]))) {
        lemma_scan_unmatched(fls, vs, i + 1);
    }
}

/// Zero-based fragment line index of the first unmatched input.
pub open spec fn first_unmatched_input(vs: Seq<u8>, fs: Seq<u8>) -> int {
    scan_unmatched(split_lines(fs), vs, 0)
}

/// The diagnostic the linker reports when the stage interfaces mismatch.
pub open spec fn link_diag(vs: Seq<u8>, fs: Seq<u8>) -> Seq<char> {
    "ERROR: 0:"@ + dec_digits(first_unmatched_input(vs, fs) + 1)
        + ": fragment input not written by vertex stage"@
}

fn is_out_prefix(t: &Vec<u8>) -> (r: bool)
    ensures
        r == starts_with(t@, kw_out()),
{
    let r = t.len() >= 4 && t[0] == 111 && t[1] == 117 && t[2] == 116 && t[3] == 32;
    proof {
        if r {
            assert(t@.subrange(0, 4) =~= kw_out());
        }
        if starts_with(t@, kw_out()) {
            assert(t@.subrange(0, 4)[0] == 111);
            assert(t@.subrange(0, 4)[1] == 117);
            assert(t@.subrange(0, 4)[2] == 116);
            assert(t@.subrange(0, 4)[3] == 32);
        }
    }
    r
}

fn is_in_prefix(t: &Vec<u8>) -> (r: bool)
    ensures
        r == starts_with(t@, kw_in()),
{
    let r = t.len() >= 3 && t[0] == 105 && t[1] == 110 && t[2] == 32;
    proof {
        if r {
            assert(t@.subrange(0, 3) =~= kw_in());
        }
        if starts_with(t@, kw_in()) {
            assert(t@.subrange(0, 3)[0] == 105);
            assert(t@.subrange(0, 3)[1] == 110);
            assert(t@.subrange(0, 3)[2] == 32);
        }
    }
    r
}

fn is_uniform_prefix(t: &Vec<u8>) -> (r: bool)
    ensures
        r == starts_with(t@, kw_uniform()),
{
    let r = t.len() >= 8 && t[0] == 117 && t[1] == 110 && t[2] == 105 && t[3] == 102 && t[4]
        == 111 && t[5] == 114 && t[6] == 109 && t[7] == 32;
    proof {
        if r {
            assert(t@.subrange(0, 8) =~= kw_uniform());
        }
        if starts_with(t@, kw_uniform()) {
            assert(t@.subrange(0, 8)[0] == 117);
            assert(t@.subrange(0, 8)[1] == 110);
            assert(t@.subrange(0, 8)[2] == 105);
            assert(t@.subrange(0, 8)[3] == 102);
            assert(t@.subrange(0, 8)[4] == 111);
            assert(t@.subrange(0, 8)[5] == 114);
            assert(t@.subrange(0, 8)[6] == 109);
            assert(t@.subrange(0, 8)[7] == 32);
        }
    }
    r
}

/// Element-wise equality of two byte strings.
pub(crate) fn bytes_eq(a: &[u8], b: &[u8]) -> (r: bool)
    ensures
        r == (a@ == b@),
{
    if a.len() != b.len() {
        return false;
    }
    let n = a.len();
    let mut i: usize = 0;
    while i < n
        invariant
            i <= n,
            n == a@.len(),
            n == b@.len(),
            forall|j: int| 0 <= j < i ==> a@[j] == b@[j],
        decreases n - i,
    {
        if a[i] != b[i] {
            return false;
        }
        i = i + 1;
    }
    proof {
        assert(a@ =~= b@);
    }
    true
}

/// Whether some element of `acc` holds exactly the bytes of `n`.
fn contains_bytes(acc: &Vec<Vec<u8>>, n: &[u8]) -> (r: bool)
    ensures
        r == views_of(acc@).contains(n@),
{
    let m = acc.len();
    let mut i: usize = 0;
    while i < m
        invariant
            i <= m,
            m == acc@.len(),
            forall|j: int| 0 <= j < i ==> acc@[j]@ != n@,
        decreases m - i,
    {
        if bytes_eq(acc[i].as_slice(), n) {
            proof {
                assert(views_of(acc@)[i as int] == n@);
            }
            return true;
        }
        i = i + 1;
    }
    proof {
        assert(!views_of(acc@).contains(n@)) by {
            if views_of(acc@).contains(n@) {
                let j = choose|j: int| 0 <= j < views_of(acc@).len() && views_of(acc@)[j] == n@;
                assert(acc@[j]@ == n@);
            }
        }
    }
    false
}

/// Checks the stage interfaces: `None` when every fragment input is
/// written by a vertex output, otherwise the link diagnostic.
pub fn check_link_sources(vs: &[u8], fs: &[u8]) -> (r: Option<String>)
    ensures
        r is None <==> link_accepts(vs@, fs@),
        r is Some ==> r.unwrap()@ == link_diag(vs@, fs@),
{
    let vlines = split_source_lines(vs);
    let ghost vseq = views_of(vlines@);
    let nv = vlines.len();
    let mut outs: Vec<Vec<u8>> = Vec::new();
    let mut i: usize = 0;
    while i < nv
        invariant
            i <= nv,
            nv == vlines@.len(),
            vseq == views_of(vlines@),
            vseq == split_lines(vs@),
            forall|j: int| 0 <= j < outs@.len() ==> vertex_provides(vs@, #[trigger] outs@[j]@),
            forall|ii: int|
                0 <= ii < i && is_out_line(#[trigger] vseq[ii]) ==> views_of(outs@).contains(
                    out_decl(vseq[ii]),
                ),
        decreases nv - i,
    {
        let t = trim_copy(vlines[i].as_slice());
        if is_out_prefix(&t) {
            proof {
                assert(vseq[i as int] == vlines@[i as int]@);
                lemma_trim_nonempty_of_prefix(vlines@[i as int]@, kw_out());
            }
            let d = copy_range(t.as_slice(), 4, t.len());
            proof {
                assert(d@ == out_decl(vseq[i as int]));
            }
            let ghost outs_pre = outs@;
            outs.push(d);
            proof {
                assert(outs@[outs@.len() - 1]@ == d@);
                assert(vertex_provides(vs@, d@));
                assert forall|ii: int|
                    0 <= ii < i + 1 && is_out_line(#[trigger] vseq[ii]) implies views_of(
                    outs@,
                ).contains(out_decl(vseq[ii])) by {
                    if ii < i {
                        let k = choose|k: int|
                            0 <= k < views_of(outs_pre).len() && views_of(outs_pre)[k] == out_decl(
                                vseq[ii],
                            );
                        assert(views_of(outs@)[k] == out_decl(vseq[ii]));
                    } else {
                        assert(views_of(outs@)[outs@.len() - 1] == out_decl(vseq[ii]));
                    }
                }
            }
        }
        i = i + 1;
    }
    let flines = split_source_lines(fs);
    let ghost fseq = views_of(flines@);
    let nf = flines.len();
    let mut k: usize = 0;
    while k < nf
        invariant
            k <= nf,
            nf == flines@.len(),
            fseq == views_of(flines@),
            fseq == split_lines(fs@),
            vseq == split_lines(vs@),
            forall|j: int| 0 <= j < outs@.len() ==> vertex_provides(vs@, #[trigger] outs@[j]@),
            forall|ii: int|
                0 <= ii < vseq.len() && is_out_line(#[trigger] vseq[ii]) ==> views_of(
                    outs@,
                ).contains(out_decl(vseq[ii])),
            scan_unmatched(fseq, vs@, 0) == scan_unmatched(fseq, vs@, k as int),
        decreases nf - k,
    {
        let t = trim_copy(flines[k].as_slice());
        if is_in_prefix(&t) {
            proof {
                assert(fseq[k as int] == flines@[k as int]@);
                lemma_trim_nonempty_of_prefix(flines@[k as int]@, kw_in());
            }
            let d = copy_range(t.as_slice(), 3, t.len());
            proof {
                assert(d@ == in_decl(fseq[k as int]));
            }
            if !contains_bytes(&outs, d.as_slice()) {
                proof {
                    assert(!vertex_provides(vs@, d@)) by {
                        if vertex_provides(vs@, d@) {
                            let w = choose|w: int|
                                0 <= w < split_lines(vs@).len() && is_out_line(
                                    split_lines(vs@)[w],
                                ) && out_decl(split_lines(vs@)[w]) == d@;
                            assert(views_of(outs@).contains(out_decl(vseq[w])));
                        }
                    }
                    assert(scan_unmatched(fseq, vs@, k as int) == k);
                }
                let mut m = String::from_str("ERROR: 0:");
                push_decimal(&mut m, (k as u64) + 1);
                m.append(": fragment input not written by vertex stage");
                proof {
                    assert(m@ =~= link_diag(vs@, fs@));
                    assert(!link_accepts(vs@, fs@));
                }
                return Some(m);
            }
            proof {
                let w = choose|w: int|
                    0 <= w < views_of(outs@).len() && views_of(outs@)[w] == d@;
                assert(vertex_provides(vs@, outs@[w]@));
            }
        }
        k = k + 1;
    }
    proof {
        lemma_scan_unmatched(fseq, vs@, 0);
    }
    None
}

/// A line opening with a non-blank keyword trims to at least the keyword.
proof fn lemma_trim_nonempty_of_prefix(line: Seq<u8>, p: Seq<u8>)
    requires
        starts_with(trim(line), p),
        p.len() > 0,
        !is_blank(p[0]),
    ensures
        scan_nonblank(line, 0) < line.len(),
        trim(line).len() >= p.len(),
{
    lemma_scan_nonblank(line, 0);
    if scan_nonblank(line, 0) == line.len() {
        assert(trim(line).len() == 0);
        assert(trim(line).subrange(0, p.len() as int)[0] == p[0]);
    }
}

/// Index of the start of the trailing identifier: scanning back from `i`,
/// the position after the last blank.
pub open spec fn scan_ident_back(s: Seq<u8>, i: int) -> int
    decreases i
    when 0 <= i <= s.len()
{
    if i == 0 {
        i
    } else if is_blank(s[i - 1]) {
        i
    } else {
        scan_ident_back(s, i - 1)
    }
}

/// The name a uniform declaration introduces: the text after `uniform `,
/// with a trailing `;` dropped, trimmed, cut at the last blank.
pub open spec fn uniform_name(line: Seq<u8>) -> Seq<u8> {
    let t = trim(line);
    let body = t.subrange(kw_uniform().len() as int, t.len() as int);
    let b = if body.len() > 0 && body.last() == 59 {
        body.drop_last()
    } else {
        body
    };
    let u = trim(b);
    u.subrange(scan_ident_back(u, u.len() as int), u.len() as int)
}

fn find_ident_back(s: &[u8], upto: usize) -> (r: usize)
    requires
        upto <= s@.len(),
    ensures
        r == scan_ident_back(s@, upto as int),
        r <= upto,
{
    let mut i = upto;
    while i > 0
        invariant
            i <= upto <= s@.len(),
            scan_ident_back(s@, upto as int) == scan_ident_back(s@, i as int),
        decreases i,
    {
        if blank_byte(s[i - 1]) {
            return i;
        }
        i = i - 1;
    }
    i
}

/// Extracts the declared name from a uniform declaration line.
fn extract_uniform_name(line: &[u8]) -> (r: Vec<u8>)
    requires
        is_uniform_line(line@),
    ensures
        r@ == uniform_name(line@),
{
    proof {
        lemma_trim_nonempty_of_prefix(line@, kw_uniform());
    }
    let t = trim_copy(line);
    let mut body = copy_range(t.as_slice(), 8, t.len());
    if body.len() > 0 && body[body.len() - 1] == 59 {
        body.pop();
        proof {
            assert(body@ =~= trim(line@).subrange(8, trim(line@).len() as int).drop_last());
        }
    }
    let u = trim_copy(body.as_slice());
    let j = find_ident_back(u.as_slice(), u.len());
    copy_range(u.as_slice(), j, u.len())
}

/// `n` appended to the uniform table unless already present or the table
/// is at the model driver's capability limit.
pub open spec fn add_uniform(acc: Seq<Seq<u8>>, n: Seq<u8>) -> Seq<Seq<u8>> {
    if acc.contains(n) || acc.len() >= crate::context::MAX_PROGRAM_UNIFORMS as int {
        acc
    } else {
        acc.push(n)
    }
}

/// The uniform table after folding the uniform declarations of `lines`
/// from index `i` on into `acc`.
pub open spec fn uniforms_from(lines: Seq<Seq<u8>>, i: int, acc: Seq<Seq<u8>>) -> Seq<Seq<u8>>
    decreases lines.len() - i
    when 0 <= i <= lines.len()
{
    if i == lines.len() {
        acc
    } else if is_uniform_line(lines[i]) {
        uniforms_from(lines, i + 1, add_uniform(acc, uniform_name(lines[i])))
    } else {
        uniforms_from(lines, i + 1, acc)
    }
}

/// The uniform names of a linked program: vertex-stage declarations
/// first, then fragment-stage ones, first occurrence winning.
pub open spec fn program_uniform_names(vs: Seq<u8>, fs: Seq<u8>) -> Seq<Seq<u8>> {
    uniforms_from(split_lines(fs), 0, uniforms_from(split_lines(vs), 0, Seq::empty()))
}

pub proof fn lemma_uniforms_from_bound(lines: Seq<Seq<u8>>, i: int, acc: Seq<Seq<u8>>)
    requires
        0 <= i <= lines.len(),
        acc.len() <= crate::context::MAX_PROGRAM_UNIFORMS as int,
    ensures
        uniforms_from(lines, i, acc).len() <= crate::context::MAX_PROGRAM_UNIFORMS as int,
    decreases lines.len() - i,
{
    if i < lines.len() {
        if is_uniform_line(lines[i]) {
            lemma_uniforms_from_bound(lines, i + 1, add_uniform(acc, uniform_name(lines[i])));
        } else {
            lemma_uniforms_from_bound(lines, i + 1, acc);
        }
    }
}

/// Folds the uniform declarations of one stage source into `acc`.
fn accumulate_uniforms(src: &[u8], acc: &mut Vec<Vec<u8>>)
    ensures
        views_of(final(acc)@) == uniforms_from(split_lines(src@), 0, views_of(old(acc)@)),
{
    let lines = split_source_lines(src);
    let ghost lseq = views_of(lines@);
    let m = lines.len();
    let mut k: usize = 0;
    while k < m
        invariant
            k <= m,
            m == lines@.len(),
            lseq == views_of(lines@),
            lseq == split_lines(src@),
            uniforms_from(lseq, k as int, views_of(acc@)) == uniforms_from(
                lseq,
                0,
                views_of(old(acc)@),
            ),
        decreases m - k,
    {
        let t = trim_copy(lines[k].as_slice());
        if is_uniform_prefix(&t) {
            proof {
                assert(lseq[k as int] == lines@[k as int]@);
            }
            let name = extract_uniform_name(lines[k].as_slice());
            let ghost acc_pre = views_of(acc@);
            let present = contains_bytes(acc, name.as_slice());
            if !present && acc.len() < crate::context::MAX_PROGRAM_UNIFORMS {
                outs_push_views(acc, name);
            }
            proof {
                assert(views_of(acc@) =~= add_uniform(acc_pre, uniform_name(lseq[k as int])));
            }
        }
        k = k + 1;
    }
}

/// Pushes one byte vector, relating the views before and after.
fn outs_push_views(acc: &mut Vec<Vec<u8>>, v: Vec<u8>)
    ensures
        final(acc)@ == old(acc)@.push(v),
        views_of(final(acc)@) == views_of(old(acc)@).push(v@),
{
    let ghost v_view = v@;
    acc.push(v);
    proof {
        assert(views_of(acc@) =~= views_of(old(acc)@).push(v_view));
    }
}

/// Collects the uniform table of a program from its two stage sources.
pub fn collect_uniform_names(vs: &[u8], fs: &[u8]) -> (r: Vec<Vec<u8>>)
    ensures
        views_of(r@) == program_uniform_names(vs@, fs@),
        r@.len() <= crate::context::MAX_PROGRAM_UNIFORMS,
{
    let mut acc: Vec<Vec<u8>> = Vec::new();
    proof {
        assert(views_of(acc@) =~= Seq::<Seq<u8>>::empty());
    }
    accumulate_uniforms(vs, &mut acc);
    accumulate_uniforms(fs, &mut acc);
    proof {
        lemma_split_lines_len(vs@);
        lemma_split_lines_len(fs@);
        lemma_uniforms_from_bound(split_lines(vs@), 0, Seq::empty());
        lemma_uniforms_from_bound(
            split_lines(fs@),
            0,
            uniforms_from(split_lines(vs@), 0, Seq::empty()),
        );
        assert(views_of(acc@).len() == acc@.len());
    }
    acc
}

/// Location of `name` in a uniform table at or after `i`, or -1.
pub open spec fn scan_uniform_index(us: Seq<Seq<u8>>, name: Seq<u8>, i: int) -> int
    decreases us.len() - i
    when 0 <= i <= us.len()
{
    if i == us.len() {
        -1
    } else if us[i] == name {
        i
    } else {
        scan_uniform_index(us, name, i + 1)
    }
}

/// Location of `name` in a uniform table: its index, or the sentinel -1
/// when absent.
pub open spec fn uniform_location_of(us: Seq<Seq<u8>>, name: Seq<u8>) -> int {
    scan_uniform_index(us, name, 0)
}

pub proof fn lemma_scan_uniform_index(us: Seq<Seq<u8>>, name: Seq<u8>, i: int)
    requires
        0 <= i <= us.len(),
    ensures
        scan_uniform_index(us, name, i) == -1 || i <= scan_uniform_index(us, name, i) < us.len(),
        scan_uniform_index(us, name, i) >= 0 ==> us[scan_uniform_index(us, name, i)] == name,
        scan_uniform_index(us, name, i) == -1 ==> forall|j: int| i <= j < us.len() ==> us[j] != name,
        forall|j: int| i <= j < scan_uniform_index(us, name, i) ==> us[j] != name,
    decreases us.len() - i,
{
    if i < us.len() && us[i] != name {
        lemma_scan_uniform_index(us, name, i + 1);
    }
}

/// Looks `name` up in a uniform table, first match winning.
pub fn find_uniform(us: &Vec<Vec<u8>>, name: &[u8]) -> (r: i32)
    requires
        us@.len() <= crate::context::MAX_PROGRAM_UNIFORMS,
    ensures
        r as int == uniform_location_of(views_of(us@), name@),
{
    let m = us.len();
    let mut i: usize = 0;
    while i < m
        invariant
            i <= m,
            m == us@.len(),
            m <= crate::context::MAX_PROGRAM_UNIFORMS,
            scan_uniform_index(views_of(us@), name@, 0) == scan_uniform_index(
                views_of(us@),
                name@,
                i as int,
            ),
        decreases m - i,
    {
        if bytes_eq(us[i].as_slice(), name) {
            proof {
                assert(views_of(us@)[i as int] == name@);
            }
            return i as i32;
        }
        proof {
            assert(views_of(us@)[i as int] == us@[i as int]@);
        }
        i = i + 1;
    }
    -1
}


} // verus!
