//! The notebook block grammar.
//!
//! A notebook source is a sequence of `block` constructs.  A construct is an
//! indented header line — the word `block`, a name, and an optional
//! `[key: value, ...]` option list — followed by a start mark (`=`, or `=*`
//! when the children are themselves blocks) and the construct's child lines,
//! each indented one level deeper.  Indentation is two spaces per level.
//!
//! Each parsing function takes the input bytes and a position, and returns
//! the position after what it consumed together with the parsed value, or
//! nothing when the input does not match.  The corresponding `spec` functions
//! define the grammar; every executable parser is proved to return exactly
//! what its spec function denotes.

use vstd::prelude::*;
use vstd::string::StringSliceAdditionalSpecFns;

verus! {

/// A parsed notebook fragment: either a named construct with options and
/// children, or a plain line of text.
#[derive(Debug, PartialEq)]
pub enum Block {
    Construct { name: Vec<u8>, options: Vec<(Vec<u8>, Vec<u8>)>, childs: Vec<Block> },
    Value(Vec<u8>),
}

// ---------------------------------------------------------------------------
// Byte classes
// ---------------------------------------------------------------------------

/// A space or a tab, the blanks allowed inside a line.
pub open spec fn is_blank(c: u8) -> bool {
    c == 32 || c == 9
}

/// ASCII letters, digits, and underscore: the bytes a construct name or an
/// option key is made of.
pub open spec fn is_name_byte(c: u8) -> bool {
    (48 <= c <= 57) || (65 <= c <= 90) || (97 <= c <= 122) || c == 95
}

/// The bytes an option value is made of: name bytes plus `.` and `-`.
pub open spec fn is_value_byte(c: u8) -> bool {
    is_name_byte(c) || c == 46 || c == 45
}

/// Carriage return or line feed: the bytes that end a line's text.
pub open spec fn is_line_break(c: u8) -> bool {
    c == 10 || c == 13
}

fn blank(c: u8) -> (r: bool)
    ensures
        r == is_blank(c),
{
    c == 32 || c == 9
}

fn name_byte(c: u8) -> (r: bool)
    ensures
        r == is_name_byte(c),
{
    (48 <= c && c <= 57) || (65 <= c && c <= 90) || (97 <= c && c <= 122) || c == 95
}

fn value_byte(c: u8) -> (r: bool)
    ensures
        r == is_value_byte(c),
{
    name_byte(c) || c == 46 || c == 45
}

fn line_break(c: u8) -> (r: bool)
    ensures
        r == is_line_break(c),
{
    c == 10 || c == 13
}

// ---------------------------------------------------------------------------
// Scanners: the end of a run of bytes of one class
// ---------------------------------------------------------------------------

/// The position of the first byte at or after `pos` that is not a blank.
pub open spec fn blank_end(s: Seq<u8>, pos: int) -> int
    decreases s.len() - pos,
{
    if 0 <= pos < s.len() && is_blank(s[pos]) {
        blank_end(s, pos + 1)
    } else {
        pos
    }
}

/// The position of the first byte at or after `pos` that is not a name byte.
pub open spec fn name_end(s: Seq<u8>, pos: int) -> int
    decreases s.len() - pos,
{
    if 0 <= pos < s.len() && is_name_byte(s[pos]) {
        name_end(s, pos + 1)
    } else {
        pos
    }
}

/// The position of the first byte at or after `pos` that is not a value byte.
pub open spec fn value_end(s: Seq<u8>, pos: int) -> int
    decreases s.len() - pos,
{
    if 0 <= pos < s.len() && is_value_byte(s[pos]) {
        value_end(s, pos + 1)
    } else {
        pos
    }
}

/// The position of the line break at or after `pos`, or the end of input.
pub open spec fn text_end(s: Seq<u8>, pos: int) -> int
    decreases s.len() - pos,
{
    if 0 <= pos < s.len() && !is_line_break(s[pos]) {
        text_end(s, pos + 1)
    } else {
        pos
    }
}

/// Skips blanks: returns the first position at or after `pos` holding a byte
/// that is neither a space nor a tab.
fn skip_blanks(s: &[u8], pos: usize) -> (r: usize)
    requires
        pos <= s@.len(),
    ensures
        r == blank_end(s@, pos as int),
        pos <= r <= s@.len(),
{
    let mut i = pos;
    while i < s.len() && blank(s[i])
        invariant
            pos <= i <= s@.len(),
            blank_end(s@, pos as int) == blank_end(s@, i as int),
        decreases s@.len() - i,
    {
        i = i + 1;
    }
    i
}

fn scan_name(s: &[u8], pos: usize) -> (r: usize)
    requires
        pos <= s@.len(),
    ensures
        r == name_end(s@, pos as int),
        pos <= r <= s@.len(),
{
    let mut i = pos;
    while i < s.len() && name_byte(s[i])
        invariant
            pos <= i <= s@.len(),
            name_end(s@, pos as int) == name_end(s@, i as int),
        decreases s@.len() - i,
    {
        i = i + 1;
    }
    i
}

fn scan_value(s: &[u8], pos: usize) -> (r: usize)
    requires
        pos <= s@.len(),
    ensures
        r == value_end(s@, pos as int),
        pos <= r <= s@.len(),
{
    let mut i = pos;
    while i < s.len() && value_byte(s[i])
        invariant
            pos <= i <= s@.len(),
            value_end(s@, pos as int) == value_end(s@, i as int),
        decreases s@.len() - i,
    {
        i = i + 1;
    }
    i
}

fn scan_text(s: &[u8], pos: usize) -> (r: usize)
    requires
        pos <= s@.len(),
    ensures
        r == text_end(s@, pos as int),
        pos <= r <= s@.len(),
{
    let mut i = pos;
    while i < s.len() && !line_break(s[i])
        invariant
            pos <= i <= s@.len(),
            text_end(s@, pos as int) == text_end(s@, i as int),
        decreases s@.len() - i,
    {
        i = i + 1;
    }
    i
}

// ---------------------------------------------------------------------------
// Fixed words and copies
// ---------------------------------------------------------------------------

/// Literal match: the position after `t` when the input at `pos` starts with
/// `t`, and nothing otherwise.
pub open spec fn spec_tag(s: Seq<u8>, pos: int, t: Seq<u8>) -> Option<int> {
    if 0 <= pos && pos + t.len() <= s.len() && s.subrange(pos, pos + t.len()) == t {
        Some(pos + t.len())
    } else {
        None
    }
}

/// Matches the literal `t` at `pos`.
fn tag_at(s: &[u8], pos: usize, t: &[u8]) -> (r: Option<usize>)
    requires
        pos <= s@.len(),
    ensures
        r is Some <==> spec_tag(s@, pos as int, t@) is Some,
        r matches Some(p) ==> Some(p as int) == spec_tag(s@, pos as int, t@) && p <= s@.len(),
{
    if t.len() > s.len() - pos {
        return None;
    }
    let mut j: usize = 0;
    while j < t.len()
        invariant
            pos + t@.len() <= s@.len(),
            s@.len() <= usize::MAX,
            j <= t@.len(),
            forall|k: int| 0 <= k < j ==> s@[pos + k] == t@[k],
        decreases t@.len() - j,
    {
        if s[pos + j] != t[j] {
            proof {
                assert(s@.subrange(pos as int, pos + t@.len())[j as int] != t@[j as int]);
            }
            return None;
        }
        j = j + 1;
    }
    proof {
        assert(s@.subrange(pos as int, pos + t@.len()) =~= t@);
    }
    Some(pos + t.len())
}

/// Copies `s[from..to]` into an owned vector.
fn copy_range(s: &[u8], from: usize, to: usize) -> (v: Vec<u8>)
    requires
        from <= to <= s@.len(),
    ensures
        v@ == s@.subrange(from as int, to as int),
{
    let mut v: Vec<u8> = Vec::new();
    let mut i = from;
    while i < to
        invariant
            from <= i <= to <= s@.len(),
            v@ == s@.subrange(from as int, i as int),
        decreases to - i,
    {
        v.push(s[i]);
        proof {
            assert(s@.subrange(from as int, i + 1) =~= s@.subrange(from as int, i as int).push(
                s@[i as int],
            ));
        }
        i = i + 1;
    }
    v
}

/// The indentation of `level`: two spaces per level.
pub open spec fn indent_seq(level: nat) -> Seq<u8> {
    Seq::new(2 * level, |i: int| 32u8)
}

/// Builds the indentation bytes of `level`.
fn indent_bytes(level: usize) -> (v: Vec<u8>)
    requires
        level <= usize::MAX / 2,
    ensures
        v@ == indent_seq(level as nat),
{
    let mut v: Vec<u8> = Vec::new();
    let mut i: usize = 0;
    while i < 2 * level
        invariant
            level <= usize::MAX / 2,
            i <= 2 * level,
            v@ == indent_seq(level as nat).take(i as int),
        decreases 2 * level - i,
    {
        v.push(32);
        proof {
            assert(indent_seq(level as nat).take(i + 1) =~= indent_seq(level as nat).take(
                i as int,
            ).push(32u8));
        }
        i = i + 1;
    }
    proof {
        assert(indent_seq(level as nat).take(2 * level) =~= indent_seq(level as nat));
    }
    v
}

// ---------------------------------------------------------------------------
// Tokens
// ---------------------------------------------------------------------------

/// A name token: the longest nonempty run of name bytes at `pos`.
pub open spec fn spec_valid_name(s: Seq<u8>, pos: int) -> Option<(int, Seq<u8>)> {
    let end = name_end(s, pos);
    if end > pos {
        Some((end, s.subrange(pos, end)))
    } else {
        None
    }
}

/// A value token: the longest nonempty run of value bytes at `pos`.
pub open spec fn spec_value_string(s: Seq<u8>, pos: int) -> Option<(int, Seq<u8>)> {
    let end = value_end(s, pos);
    if end > pos {
        Some((end, s.subrange(pos, end)))
    } else {
        None
    }
}

/// The spec-level value of a position-and-token result.
pub open spec fn token_view(r: Option<(usize, Vec<u8>)>) -> Option<(int, Seq<u8>)> {
    match r {
        Some((p, v)) => Some((p as int, v@)),
        None => None,
    }
}

/// Parses a name: a nonempty run of letters, digits and underscores.
pub fn parse_valid_name(input: &[u8], pos: usize) -> (r: Option<(usize, Vec<u8>)>)
    requires
        pos <= input@.len(),
    ensures
        token_view(r) == spec_valid_name(input@, pos as int),
        r matches Some((p, _)) ==> pos < p <= input@.len(),
{
    let end = scan_name(input, pos);
    if end > pos {
        Some((end, copy_range(input, pos, end)))
    } else {
        None
    }
}

/// Parses an option value: a nonempty run of name bytes, `.` and `-`.
pub fn parse_value_string(input: &[u8], pos: usize) -> (r: Option<(usize, Vec<u8>)>)
    requires
        pos <= input@.len(),
    ensures
        token_view(r) == spec_value_string(input@, pos as int),
        r matches Some((p, _)) ==> pos < p <= input@.len(),
{
    let end = scan_value(input, pos);
    if end > pos {
        Some((end, copy_range(input, pos, end)))
    } else {
        None
    }
}

} // verus!

verus! {

// ---------------------------------------------------------------------------
// Key-value pairs and option lists
// ---------------------------------------------------------------------------

/// A key-value pair: a name, a colon between optional blanks, and a value.
pub open spec fn spec_key_value(s: Seq<u8>, pos: int) -> Option<(int, (Seq<u8>, Seq<u8>))> {
    match spec_valid_name(s, pos) {
        None => None,
        Some((p1, key)) => {
            let p2 = blank_end(s, p1);
            // 58 is the colon
            match spec_tag(s, p2, seq![58u8]) {
                None => None,
                Some(p3) => {
                    let p4 = blank_end(s, p3);
                    match spec_value_string(s, p4) {
                        None => None,
                        Some((p5, value)) => Some((p5, (key, value))),
                    }
                }
            }
        }
    }
}

/// The spec-level value of a position-and-pair result.
pub open spec fn kv_view(r: Option<(usize, (Vec<u8>, Vec<u8>))>) -> Option<
    (int, (Seq<u8>, Seq<u8>)),
> {
    match r {
        Some((p, kv)) => Some((p as int, (kv.0@, kv.1@))),
        None => None,
    }
}

/// Parses one `key: value` pair.
pub fn parse_key_value(input: &[u8], pos: usize) -> (r: Option<(usize, (Vec<u8>, Vec<u8>))>)
    requires
        pos <= input@.len(),
    ensures
        kv_view(r) == spec_key_value(input@, pos as int),
        r matches Some((p, _)) ==> pos < p <= input@.len(),
{
    let colon: [u8; 1] = [58];
    proof {
        assert(colon@ =~= seq![58u8]);
    }
    match parse_valid_name(input, pos) {
        None => None,
        Some((p1, key)) => {
            let p2 = skip_blanks(input, p1);
            match tag_at(input, p2, colon.as_slice()) {
                None => None,
                Some(p3) => {
                    let p4 = skip_blanks(input, p3);
                    match parse_value_string(input, p4) {
                        None => None,
                        Some((p5, value)) => Some((p5, (key, value))),
                    }
                }
            }
        }
    }
}

/// The pairs after the first one: a comma between optional blanks and then a
/// pair, repeated as long as it matches.  Returns the position after the last
/// pair and the pairs collected.
pub open spec fn spec_kv_tail(s: Seq<u8>, pos: int) -> (int, Seq<(Seq<u8>, Seq<u8>)>)
    decreases s.len() - pos,
{
    let p1 = blank_end(s, pos);
    // 44 is the comma
    match spec_tag(s, p1, seq![44u8]) {
        None => (pos, Seq::empty()),
        Some(p2) => {
            let p3 = blank_end(s, p2);
            match spec_key_value(s, p3) {
                None => (pos, Seq::empty()),
                Some((p4, kv)) => {
                    if pos < p4 && p4 <= s.len() {
                        let r = spec_kv_tail(s, p4);
                        (r.0, seq![kv] + r.1)
                    } else {
                        (pos, Seq::empty())
                    }
                }
            }
        }
    }
}

/// An option list: `[` and `]` around one or more comma-separated pairs,
/// blanks allowed throughout.  When nothing of that shape is present the
/// list is empty and no input is consumed.
pub open spec fn spec_kv_list(s: Seq<u8>, pos: int) -> (int, Seq<(Seq<u8>, Seq<u8>)>) {
    // 91 and 93 are the brackets
    match spec_tag(s, pos, seq![91u8]) {
        None => (pos, Seq::empty()),
        Some(p1) => {
            let p2 = blank_end(s, p1);
            match spec_key_value(s, p2) {
                None => (pos, Seq::empty()),
                Some((p3, kv0)) => {
                    let r = spec_kv_tail(s, p3);
                    let p4 = blank_end(s, r.0);
                    match spec_tag(s, p4, seq![93u8]) {
                        None => (pos, Seq::empty()),
                        Some(p5) => (p5, seq![kv0] + r.1),
                    }
                }
            }
        }
    }
}

/// The spec-level value of a list of owned pairs.
pub open spec fn kvs_view(kvs: Seq<(Vec<u8>, Vec<u8>)>) -> Seq<(Seq<u8>, Seq<u8>)> {
    kvs.map_values(|kv: (Vec<u8>, Vec<u8>)| (kv.0@, kv.1@))
}

/// Parses an optional bracketed option list; consumes nothing and yields no
/// pairs when none is present.
pub fn parse_key_value_list(input: &[u8], pos: usize) -> (r: (usize, Vec<(Vec<u8>, Vec<u8>)>))
    requires
        pos <= input@.len(),
    ensures
        r.0 as int == spec_kv_list(input@, pos as int).0,
        kvs_view(r.1@) == spec_kv_list(input@, pos as int).1,
        pos <= r.0 <= input@.len(),
{
    let open_bracket: [u8; 1] = [91];
    let close_bracket: [u8; 1] = [93];
    let comma: [u8; 1] = [44];
    let empty_result: (usize, Vec<(Vec<u8>, Vec<u8>)>) = (pos, Vec::new());
    proof {
        assert(open_bracket@ =~= seq![91u8]);
        assert(close_bracket@ =~= seq![93u8]);
        assert(comma@ =~= seq![44u8]);
        assert(kvs_view(Seq::empty()) =~= Seq::<(Seq<u8>, Seq<u8>)>::empty());
    }
    let p1 = match tag_at(input, pos, open_bracket.as_slice()) {
        None => {
            return empty_result;
        }
        Some(p1) => p1,
    };
    let p2 = skip_blanks(input, p1);
    let (first_end, kv0) = match parse_key_value(input, p2) {
        None => {
            return empty_result;
        }
        Some(x) => x,
    };
    let ghost kv0v = (kv0.0@, kv0.1@);
    let mut acc: Vec<(Vec<u8>, Vec<u8>)> = Vec::new();
    acc.push(kv0);
    let mut cur = first_end;
    let mut done = false;
    while !done
        invariant
            comma@ == seq![44u8],
            first_end <= cur <= input@.len(),
            acc@.len() >= 1,
            spec_kv_tail(input@, first_end as int).0 == spec_kv_tail(input@, cur as int).0,
            seq![kv0v] + spec_kv_tail(input@, first_end as int).1 == kvs_view(acc@)
                + spec_kv_tail(input@, cur as int).1,
            done ==> spec_kv_tail(input@, cur as int) == (cur as int, Seq::<
                (Seq<u8>, Seq<u8>),
            >::empty()),
        decreases input@.len() - cur + (if done { 0int } else { 1int }),
    {
        let q1 = skip_blanks(input, cur);
        match tag_at(input, q1, comma.as_slice()) {
            None => {
                done = true;
            }
            Some(q2) => {
                let q3 = skip_blanks(input, q2);
                match parse_key_value(input, q3) {
                    None => {
                        done = true;
                    }
                    Some((q4, kv)) => {
                        proof {
                            assert(spec_kv_tail(input@, cur as int).0 == spec_kv_tail(
                                input@,
                                q4 as int,
                            ).0);
                            assert(spec_kv_tail(input@, cur as int).1 =~= seq![(kv.0@, kv.1@)]
                                + spec_kv_tail(input@, q4 as int).1);
                            assert(kvs_view(acc@.push((kv.0, kv.1))) =~= kvs_view(acc@).push(
                                (kv.0@, kv.1@),
                            ));
                            assert(seq![kv0v] + spec_kv_tail(input@, first_end as int).1 =~=
                                kvs_view(acc@.push((kv.0, kv.1))) + spec_kv_tail(
                                input@,
                                q4 as int,
                            ).1);
                        }
                        acc.push(kv);
                        cur = q4;
                    }
                }
            }
        }
    }
    let p4 = skip_blanks(input, cur);
    match tag_at(input, p4, close_bracket.as_slice()) {
        None => empty_result,
        Some(p5) => {
            proof {
                assert(seq![kv0v] + spec_kv_tail(input@, first_end as int).1 =~= kvs_view(acc@));
            }
            (p5, acc)
        }
    }
}

} // verus!

verus! {

// ---------------------------------------------------------------------------
// Lines and marks
// ---------------------------------------------------------------------------

/// The position after an optional line ending at `pos`: a carriage return
/// and line feed, a lone line feed, or nothing.
pub open spec fn line_ending_end(s: Seq<u8>, pos: int) -> int {
    // 13 and 10 are carriage return and line feed
    if spec_tag(s, pos, seq![13u8, 10u8]) is Some {
        pos + 2
    } else if spec_tag(s, pos, seq![10u8]) is Some {
        pos + 1
    } else {
        pos
    }
}

/// One indented line: the indentation of `level`, then the line's text up to
/// (not including) a line break, then an optional line ending.
pub open spec fn spec_line(s: Seq<u8>, pos: int, level: nat) -> Option<(int, Seq<u8>)> {
    match spec_tag(s, pos, indent_seq(level)) {
        None => None,
        Some(p1) => {
            let p2 = text_end(s, p1);
            Some((line_ending_end(s, p2), s.subrange(p1, p2)))
        }
    }
}

/// Parses one line indented to `indent_level`, returning its text without
/// the indentation and without the line ending.
pub fn indented_parse_line(input: &[u8], pos: usize, indent_level: usize) -> (r: Option<
    (usize, Vec<u8>),
>)
    requires
        pos <= input@.len(),
        indent_level <= usize::MAX / 2,
    ensures
        token_view(r) == spec_line(input@, pos as int, indent_level as nat),
        r matches Some((p, _)) ==> pos + 2 * indent_level <= p <= input@.len(),
{
    let ind = indent_bytes(indent_level);
    let crlf: [u8; 2] = [13, 10];
    let lf: [u8; 1] = [10];
    proof {
        assert(crlf@ =~= seq![13u8, 10u8]);
        assert(lf@ =~= seq![10u8]);
    }
    match tag_at(input, pos, ind.as_slice()) {
        None => None,
        Some(p1) => {
            let p2 = scan_text(input, p1);
            let line = copy_range(input, p1, p2);
            match tag_at(input, p2, crlf.as_slice()) {
                Some(p3) => Some((p3, line)),
                None => match tag_at(input, p2, lf.as_slice()) {
                    Some(p3) => Some((p3, line)),
                    None => Some((p2, line)),
                },
            }
        }
    }
}

/// A child start mark: optional blanks, the mark itself, optional blanks,
/// and a line feed.
pub open spec fn spec_start_mark(s: Seq<u8>, pos: int, mark: Seq<u8>) -> Option<int> {
    let p1 = blank_end(s, pos);
    match spec_tag(s, p1, mark) {
        None => None,
        Some(p2) => {
            let p3 = blank_end(s, p2);
            // 10 is the line feed
            match spec_tag(s, p3, seq![10u8]) {
                None => None,
                Some(p4) => Some(p4),
            }
        }
    }
}

/// The spec-level value of a position-only result.
pub open spec fn pos_view(r: Option<usize>) -> Option<int> {
    match r {
        Some(p) => Some(p as int),
        None => None,
    }
}

/// Parses the mark that opens a construct's children: blanks, `mark`,
/// blanks, then the end of the line.
pub fn custom_parse_child_start_mark(input: &[u8], pos: usize, mark: &[u8]) -> (r: Option<usize>)
    requires
        pos <= input@.len(),
    ensures
        pos_view(r) == spec_start_mark(input@, pos as int, mark@),
        r matches Some(p) ==> pos < p <= input@.len(),
{
    let lf: [u8; 1] = [10];
    proof {
        assert(lf@ =~= seq![10u8]);
    }
    let p1 = skip_blanks(input, pos);
    match tag_at(input, p1, mark) {
        None => None,
        Some(p2) => {
            let p3 = skip_blanks(input, p2);
            match tag_at(input, p3, lf.as_slice()) {
                None => None,
                Some(p4) => Some(p4),
            }
        }
    }
}

/// Whether the input at `pos` looks ahead to another construct: a line feed,
/// the indentation of `level`, and the word `block`.  Looking ahead consumes
/// nothing.
pub open spec fn spec_child_end_mark(s: Seq<u8>, pos: int, level: nat) -> bool {
    match spec_tag(s, pos, seq![10u8]) {
        None => false,
        Some(p1) => match spec_tag(s, p1, indent_seq(level)) {
            None => false,
            Some(p2) => spec_tag(s, p2, block_word()) is Some,
        },
    }
}

/// The ASCII bytes of the word `block`.
pub open spec fn block_word() -> Seq<u8> {
    seq![98u8, 108u8, 111u8, 99u8, 107u8]
}

/// Peeks for the end of a construct's children: a following line that opens
/// another construct at the same level.  Consumes nothing either way.
pub fn indented_parse_child_end_mark(input: &[u8], pos: usize, indent_level: usize) -> (r: Option<
    (),
>)
    requires
        pos <= input@.len(),
        indent_level <= usize::MAX / 2,
    ensures
        r is Some <==> spec_child_end_mark(input@, pos as int, indent_level as nat),
{
    let lf: [u8; 1] = [10];
    let block_tag: [u8; 5] = [98, 108, 111, 99, 107];
    proof {
        assert(lf@ =~= seq![10u8]);
        assert(block_tag@ =~= block_word());
    }
    let ind = indent_bytes(indent_level);
    match tag_at(input, pos, lf.as_slice()) {
        None => None,
        Some(p1) => match tag_at(input, p1, ind.as_slice()) {
            None => None,
            Some(p2) => match tag_at(input, p2, block_tag.as_slice()) {
                None => None,
                Some(_) => Some(()),
            },
        },
    }
}

} // verus!

verus! {

// ---------------------------------------------------------------------------
// Constructs
// ---------------------------------------------------------------------------

/// A construct header: the indentation of `level`, the word `block`, blanks,
/// the construct's name, blanks, and an optional option list.
pub open spec fn spec_construct_info(s: Seq<u8>, pos: int, level: nat) -> Option<
    (int, (Seq<u8>, Seq<(Seq<u8>, Seq<u8>)>)),
> {
    match spec_tag(s, pos, indent_seq(level)) {
        None => None,
        Some(p0) => match spec_tag(s, p0, block_word()) {
            None => None,
            Some(p1) => {
                let p2 = blank_end(s, p1);
                if p2 == p1 {
                    None
                } else {
                    match spec_valid_name(s, p2) {
                        None => None,
                        Some((p3, name)) => {
                            let p4 = blank_end(s, p3);
                            if p4 == p3 {
                                None
                            } else {
                                let r = spec_kv_list(s, p4);
                                Some((r.0, (name, r.1)))
                            }
                        }
                    }
                }
            }
        },
    }
}

/// The spec-level value of a position-name-options result.
pub open spec fn info_view(r: Option<(usize, (Vec<u8>, Vec<(Vec<u8>, Vec<u8>)>))>) -> Option<
    (int, (Seq<u8>, Seq<(Seq<u8>, Seq<u8>)>)),
> {
    match r {
        Some((p, info)) => Some((p as int, (info.0@, kvs_view(info.1@)))),
        None => None,
    }
}

/// Parses a construct header, returning its name and options.
pub fn indented_parse_construct_info(input: &[u8], pos: usize, indent_level: usize) -> (r: Option<
    (usize, (Vec<u8>, Vec<(Vec<u8>, Vec<u8>)>)),
>)
    requires
        pos <= input@.len(),
        indent_level <= usize::MAX / 2,
    ensures
        info_view(r) == spec_construct_info(input@, pos as int, indent_level as nat),
        r matches Some((p, _)) ==> pos < p <= input@.len(),
{
    let block_tag: [u8; 5] = [98, 108, 111, 99, 107];
    proof {
        assert(block_tag@ =~= block_word());
    }
    let ind = indent_bytes(indent_level);
    let p0 = match tag_at(input, pos, ind.as_slice()) {
        None => {
            return None;
        }
        Some(p0) => p0,
    };
    let p1 = match tag_at(input, p0, block_tag.as_slice()) {
        None => {
            return None;
        }
        Some(p1) => p1,
    };
    let p2 = skip_blanks(input, p1);
    if p2 == p1 {
        return None;
    }
    let (p3, name) = match parse_valid_name(input, p2) {
        None => {
            return None;
        }
        Some(x) => x,
    };
    let p4 = skip_blanks(input, p3);
    if p4 == p3 {
        return None;
    }
    let (p5, options) = parse_key_value_list(input, p4);
    Some((p5, (name, options)))
}

// ---------------------------------------------------------------------------
// Child lines
// ---------------------------------------------------------------------------

/// The spec-level value of a list of owned lines.
pub open spec fn lines_view(ls: Seq<Vec<u8>>) -> Seq<Seq<u8>> {
    ls.map_values(|l: Vec<u8>| l@)
}

/// As many indented lines as match at `pos`, one after the other.  A line
/// that consumes nothing cannot repeat and ends the run.
pub open spec fn spec_lines(s: Seq<u8>, pos: int, level: nat) -> (int, Seq<Seq<u8>>)
    decreases s.len() - pos,
{
    match spec_line(s, pos, level) {
        None => (pos, Seq::empty()),
        Some((p1, line)) => {
            if pos < p1 && p1 <= s.len() {
                let r = spec_lines(s, p1, level);
                (r.0, seq![line] + r.1)
            } else {
                (pos, Seq::empty())
            }
        }
    }
}

/// Parses as many lines indented to `indent_level` as there are.
fn parse_indented_lines(input: &[u8], pos: usize, indent_level: usize) -> (r: (
    usize,
    Vec<Vec<u8>>,
))
    requires
        pos <= input@.len(),
        1 <= indent_level <= usize::MAX / 2,
    ensures
        r.0 as int == spec_lines(input@, pos as int, indent_level as nat).0,
        lines_view(r.1@) == spec_lines(input@, pos as int, indent_level as nat).1,
        pos <= r.0 <= input@.len(),
{
    let mut acc: Vec<Vec<u8>> = Vec::new();
    let mut cur = pos;
    let mut done = false;
    proof {
        assert(lines_view(acc@) =~= Seq::<Seq<u8>>::empty());
    }
    while !done
        invariant
            pos <= cur <= input@.len(),
            1 <= indent_level <= usize::MAX / 2,
            spec_lines(input@, pos as int, indent_level as nat).0 == spec_lines(
                input@,
                cur as int,
                indent_level as nat,
            ).0,
            spec_lines(input@, pos as int, indent_level as nat).1 == lines_view(acc@)
                + spec_lines(input@, cur as int, indent_level as nat).1,
            done ==> spec_lines(input@, cur as int, indent_level as nat) == (
                cur as int,
                Seq::<Seq<u8>>::empty(),
            ),
        decreases input@.len() - cur + (if done {
            0int
        } else {
            1int
        }),
    {
        match indented_parse_line(input, cur, indent_level) {
            None => {
                done = true;
            }
            Some((p1, line)) => {
                proof {
                    assert(spec_lines(input@, cur as int, indent_level as nat).1 =~= seq![line@]
                        + spec_lines(input@, p1 as int, indent_level as nat).1);
                    assert(lines_view(acc@.push(line)) =~= lines_view(acc@).push(line@));
                    assert(lines_view(acc@) + (seq![line@] + spec_lines(
                        input@,
                        p1 as int,
                        indent_level as nat,
                    ).1) =~= lines_view(acc@.push(line)) + spec_lines(
                        input@,
                        p1 as int,
                        indent_level as nat,
                    ).1);
                }
                acc.push(line);
                cur = p1;
            }
        }
    }
    (cur, acc)
}

/// The lines with every trailing empty line removed.
pub open spec fn spec_trim(lines: Seq<Seq<u8>>) -> Seq<Seq<u8>>
    decreases lines.len(),
{
    if lines.len() == 0 {
        lines
    } else if lines.last().len() == 0 {
        spec_trim(lines.drop_last())
    } else {
        lines
    }
}

/// Removes empty lines from the end of `values`.
pub fn trim_empty_strings_at_vec_end(values: Vec<Vec<u8>>) -> (r: Vec<Vec<u8>>)
    ensures
        lines_view(r@) == spec_trim(lines_view(values@)),
{
    let ghost orig = values@;
    let mut v = values;
    while v.len() > 0 && v[v.len() - 1].len() == 0
        invariant
            spec_trim(lines_view(orig)) == spec_trim(lines_view(v@)),
        decreases v@.len(),
    {
        proof {
            assert(lines_view(v@).last().len() == 0);
            assert(lines_view(v@.drop_last()) =~= lines_view(v@).drop_last());
        }
        let ghost prev = v@;
        v.pop();
        proof {
            assert(v@ =~= prev.drop_last());
        }
    }
    proof {
        if v@.len() > 0 {
            assert(lines_view(v@).last() == v@.last()@);
            assert(lines_view(v@).last().len() != 0);
        }
        assert(spec_trim(lines_view(v@)) == lines_view(v@));
    }
    v
}

/// Each block is a plain `Value` holding the corresponding line.
pub open spec fn is_value_blocks(childs: Seq<Block>, lines: Seq<Seq<u8>>) -> bool {
    &&& childs.len() == lines.len()
    &&& forall|i: int|
        0 <= i < childs.len() ==> ((#[trigger] childs[i]) matches Block::Value(v) && v@
            == lines[i])
}

/// Wraps each line in a `Value` block.
fn values_from_lines(lines: Vec<Vec<u8>>) -> (r: Vec<Block>)
    ensures
        is_value_blocks(r@, lines_view(lines@)),
{
    let ghost all = lines@;
    let mut rest = lines;
    let mut blocks: Vec<Block> = Vec::new();
    while rest.len() > 0
        invariant
            blocks@.len() + rest@.len() == all.len(),
            rest@ == all.skip(blocks@.len() as int),
            is_value_blocks(blocks@, lines_view(all).take(blocks@.len() as int)),
        decreases rest@.len(),
    {
        let line = rest.remove(0);
        proof {
            assert(line == all[blocks@.len() as int]);
            assert(all.skip(blocks@.len() as int).drop_first() =~= all.skip(blocks@.len() as int + 1));
        }
        blocks.push(Block::Value(line));
        proof {
            assert(lines_view(all)[blocks@.len() - 1] == line@);
        }
    }
    proof {
        assert(lines_view(all).take(blocks@.len() as int) =~= lines_view(all));
    }
    blocks
}

} // verus!

verus! {

/// A full construct: its header, a start mark, and its child lines with
/// trailing empty lines removed.  `mark` is `=` for constructs whose
/// children are plain lines and `=*` for constructs whose children are
/// themselves blocks.
pub open spec fn spec_construct_with_mark(s: Seq<u8>, pos: int, level: nat, mark: Seq<u8>) -> Option<
    (int, (Seq<u8>, Seq<(Seq<u8>, Seq<u8>)>, Seq<Seq<u8>>)),
> {
    match spec_construct_info(s, pos, level) {
        None => None,
        Some((p1, info)) => match spec_start_mark(s, p1, mark) {
            None => None,
            Some(p2) => {
                let r = spec_lines(s, p2, level + 1);
                Some((r.0, (info.0, info.1, spec_trim(r.1))))
            }
        },
    }
}

/// The ASCII byte of `=`, the mark for line children.
pub open spec fn eq_mark() -> Seq<u8> {
    seq![61u8]
}

/// The ASCII bytes of `=*`, the mark for block children.
pub open spec fn eq_star_mark() -> Seq<u8> {
    seq![61u8, 42u8]
}

/// The block is a `Construct` carrying exactly this name, these options and
/// these child lines.
pub open spec fn construct_matches(
    b: Block,
    name: Seq<u8>,
    options: Seq<(Seq<u8>, Seq<u8>)>,
    lines: Seq<Seq<u8>>,
) -> bool {
    &&& b matches Block::Construct { name: n, options: o, childs: c } && n@ == name && kvs_view(o@)
        == options && is_value_blocks(c@, lines)
}

/// Parses one construct whose children are plain lines (start mark `=`),
/// indented to `indent_level`.
pub fn indented_parse_construct(input: &[u8], pos: usize, indent_level: usize) -> (r: Option<
    (usize, Block),
>)
    requires
        pos <= input@.len(),
        indent_level < usize::MAX / 2,
    ensures
        r is Some <==> spec_construct_with_mark(
            input@,
            pos as int,
            indent_level as nat,
            eq_mark(),
        ) is Some,
        r matches Some((p, b)) ==> (match spec_construct_with_mark(
            input@,
            pos as int,
            indent_level as nat,
            eq_mark(),
        ) {
            Some((sp, c)) => p as int == sp && construct_matches(b, c.0, c.1, c.2) && pos < p
                <= input@.len(),
            None => false,
        }),
{
    let mark: [u8; 1] = [61];
    proof {
        assert(mark@ =~= eq_mark());
    }
    parse_construct_with_mark(input, pos, indent_level, mark.as_slice())
}

/// Parses one construct whose children are themselves blocks (start mark
/// `=*`), indented to `indent_level`.
pub fn indented_parse_block_with_child_as_block(input: &[u8], pos: usize, indent_level: usize) -> (r:
    Option<(usize, Block)>)
    requires
        pos <= input@.len(),
        indent_level < usize::MAX / 2,
    ensures
        r is Some <==> spec_construct_with_mark(
            input@,
            pos as int,
            indent_level as nat,
            eq_star_mark(),
        ) is Some,
        r matches Some((p, b)) ==> (match spec_construct_with_mark(
            input@,
            pos as int,
            indent_level as nat,
            eq_star_mark(),
        ) {
            Some((sp, c)) => p as int == sp && construct_matches(b, c.0, c.1, c.2) && pos < p
                <= input@.len(),
            None => false,
        }),
{
    let mark: [u8; 2] = [61, 42];
    proof {
        assert(mark@ =~= eq_star_mark());
    }
    parse_construct_with_mark(input, pos, indent_level, mark.as_slice())
}

/// Shared body of the two construct parsers.
fn parse_construct_with_mark(input: &[u8], pos: usize, indent_level: usize, mark: &[u8]) -> (r:
    Option<(usize, Block)>)
    requires
        pos <= input@.len(),
        indent_level < usize::MAX / 2,
    ensures
        r is Some <==> spec_construct_with_mark(
            input@,
            pos as int,
            indent_level as nat,
            mark@,
        ) is Some,
        r matches Some((p, b)) ==> (match spec_construct_with_mark(
            input@,
            pos as int,
            indent_level as nat,
            mark@,
        ) {
            Some((sp, c)) => p as int == sp && construct_matches(b, c.0, c.1, c.2) && pos < p
                <= input@.len(),
            None => false,
        }),
{
    let (p1, info) = match indented_parse_construct_info(input, pos, indent_level) {
        None => {
            return None;
        }
        Some(x) => x,
    };
    let p2 = match custom_parse_child_start_mark(input, p1, mark) {
        None => {
            return None;
        }
        Some(p2) => p2,
    };
    let (p3, raw_lines) = parse_indented_lines(input, p2, indent_level + 1);
    let trimmed = trim_empty_strings_at_vec_end(raw_lines);
    let childs = values_from_lines(trimmed);
    let (name, options) = info;
    Some((p3, Block::Construct { name, options, childs }))
}

// ---------------------------------------------------------------------------
// Sequences of constructs, and the block alternative
// ---------------------------------------------------------------------------

/// As many line-children constructs as match at `pos`, one after the other.
/// A construct that consumes nothing cannot repeat and ends the run.
pub open spec fn spec_blocks(s: Seq<u8>, pos: int, level: nat) -> (
    int,
    Seq<(Seq<u8>, Seq<(Seq<u8>, Seq<u8>)>, Seq<Seq<u8>>)>,
)
    decreases s.len() - pos,
{
    match spec_construct_with_mark(s, pos, level, eq_mark()) {
        None => (pos, Seq::empty()),
        Some((p1, c)) => {
            if pos < p1 && p1 <= s.len() {
                let r = spec_blocks(s, p1, level);
                (r.0, seq![c] + r.1)
            } else {
                (pos, Seq::empty())
            }
        }
    }
}

/// Every block is a `Construct` carrying the corresponding parsed header and
/// child lines.
pub open spec fn blocks_match(
    bs: Seq<Block>,
    cs: Seq<(Seq<u8>, Seq<(Seq<u8>, Seq<u8>)>, Seq<Seq<u8>>)>,
) -> bool {
    &&& bs.len() == cs.len()
    &&& forall|i: int|
        0 <= i < bs.len() ==> construct_matches(#[trigger] bs[i], cs[i].0, cs[i].1, cs[i].2)
}

/// Parses every construct at `indent_level` from `pos` on, stopping at the
/// first input that is not a construct.
pub fn indented_parse_blocks(input: &[u8], pos: usize, indent_level: usize) -> (r: (
    usize,
    Vec<Block>,
))
    requires
        pos <= input@.len(),
        indent_level < usize::MAX / 2,
    ensures
        r.0 as int == spec_blocks(input@, pos as int, indent_level as nat).0,
        blocks_match(r.1@, spec_blocks(input@, pos as int, indent_level as nat).1),
        pos <= r.0 <= input@.len(),
{
    let mut acc: Vec<Block> = Vec::new();
    let ghost mut prefix: Seq<(Seq<u8>, Seq<(Seq<u8>, Seq<u8>)>, Seq<Seq<u8>>)> = Seq::empty();
    let mut cur = pos;
    let mut done = false;
    while !done
        invariant
            pos <= cur <= input@.len(),
            indent_level < usize::MAX / 2,
            spec_blocks(input@, pos as int, indent_level as nat).0 == spec_blocks(
                input@,
                cur as int,
                indent_level as nat,
            ).0,
            spec_blocks(input@, pos as int, indent_level as nat).1 == prefix + spec_blocks(
                input@,
                cur as int,
                indent_level as nat,
            ).1,
            blocks_match(acc@, prefix),
            done ==> spec_blocks(input@, cur as int, indent_level as nat) == (
                cur as int,
                Seq::<(Seq<u8>, Seq<(Seq<u8>, Seq<u8>)>, Seq<Seq<u8>>)>::empty(),
            ),
        decreases input@.len() - cur + (if done {
            0int
        } else {
            1int
        }),
    {
        match indented_parse_construct(input, cur, indent_level) {
            None => {
                done = true;
            }
            Some((p1, b)) => {
                proof {
                    let c = match spec_construct_with_mark(
                        input@,
                        cur as int,
                        indent_level as nat,
                        eq_mark(),
                    ) {
                        Some((_, c)) => c,
                        None => arbitrary(),
                    };
                    assert(spec_blocks(input@, cur as int, indent_level as nat).1 =~= seq![c]
                        + spec_blocks(input@, p1 as int, indent_level as nat).1);
                    assert(prefix + (seq![c] + spec_blocks(
                        input@,
                        p1 as int,
                        indent_level as nat,
                    ).1) =~= prefix.push(c) + spec_blocks(input@, p1 as int, indent_level as nat).1);
                    assert(blocks_match(acc@.push(b), prefix.push(c)));
                    prefix = prefix.push(c);
                }
                acc.push(b);
                cur = p1;
            }
        }
    }
    proof {
        assert(spec_blocks(input@, pos as int, indent_level as nat).1 =~= prefix);
    }
    (cur, acc)
}

/// The spec-level value of a single block alternative: a plain line, or a
/// construct whose children are blocks.
pub enum BlockRep {
    Value(Seq<u8>),
    Construct((Seq<u8>, Seq<(Seq<u8>, Seq<u8>)>, Seq<Seq<u8>>)),
}

/// One block at `pos`: a plain indented line when one matches, otherwise a
/// construct with block children (start mark `=*`).
pub open spec fn spec_block(s: Seq<u8>, pos: int, level: nat) -> Option<(int, BlockRep)> {
    match spec_line(s, pos, level) {
        Some((p, line)) => Some((p, BlockRep::Value(line))),
        None => match spec_construct_with_mark(s, pos, level, eq_star_mark()) {
            Some((p, c)) => Some((p, BlockRep::Construct(c))),
            None => None,
        },
    }
}

/// The block carries exactly the value the alternative denotes.
pub open spec fn block_rep_matches(b: Block, rep: BlockRep) -> bool {
    match rep {
        BlockRep::Value(line) => b matches Block::Value(v) && v@ == line,
        BlockRep::Construct(c) => construct_matches(b, c.0, c.1, c.2),
    }
}

/// Parses one block at `indent_level`: a plain line when one matches,
/// otherwise a construct whose children are blocks.
pub fn indented_block(input: &[u8], pos: usize, indent_level: usize) -> (r: Option<(usize, Block)>)
    requires
        pos <= input@.len(),
        indent_level < usize::MAX / 2,
    ensures
        r is Some <==> spec_block(input@, pos as int, indent_level as nat) is Some,
        r matches Some((p, b)) ==> (match spec_block(input@, pos as int, indent_level as nat) {
            Some((sp, rep)) => p as int == sp && block_rep_matches(b, rep),
            None => false,
        }),
{
    match indented_parse_line(input, pos, indent_level) {
        Some((p, line)) => Some((p, Block::Value(line))),
        None => match indented_parse_block_with_child_as_block(input, pos, indent_level) {
            Some((p, b)) => Some((p, b)),
            None => None,
        },
    }
}

// ---------------------------------------------------------------------------
// The parsed notebook
// ---------------------------------------------------------------------------

/// A parsed notebook source: its language tag and its top-level blocks.
#[derive(Debug)]
pub struct NotebookParsed {
    /// The notebook's language.  The block grammar carries no language tag,
    /// so parsing leaves it empty.
    pub language: String,
    /// The top-level constructs, in source order.
    pub blocks: Vec<Block>,
}

impl NotebookParsed {
    /// Parses a notebook source: every top-level construct, from the start
    /// of the input.
    pub fn parse(source: &str) -> (r: Self)
        ensures
            r.language@.len() == 0,
            blocks_match(r.blocks@, spec_blocks(source.spec_bytes(), 0, 0).1),
    {
        let bytes = source.as_bytes();
        let (_, blocks) = indented_parse_blocks(bytes, 0, 0);
        NotebookParsed { language: String::new(), blocks }
    }
}

} // verus!
