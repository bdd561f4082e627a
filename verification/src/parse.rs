//! The configuration-argument grammar: a comma-separated list of
//! `name = value` pairs. `schedule` and `plugin` are reserved names whose
//! value must be a plain path reference and which may occur at most once;
//! every other pair is kept, in order, as a transform.
//!
//! Commas inside parentheses, brackets or braces do not separate arguments,
//! so a value may itself be a call with several arguments. A value holding
//! a `=` outside any such nesting is a missing argument separator — two
//! pairs ran together — and fails as a syntax error.

use vstd::prelude::*;
use crate::bytes::copy_range;
use crate::record::{ConfigRecord, ReservedKey, SpecRecord, empty_record};

verus! {

/// How parsing an argument list can fail.
#[derive(Clone, Copy, Debug, PartialEq, Eq, Structural)]
pub enum ParseError {
    /// Malformed grammar: a missing `=`, a missing separator between two
    /// pairs, an empty argument, an unbalanced bracket, or a name that is
    /// not a plain identifier.
    Syntax,
    /// `schedule` or `plugin` given more than once.
    DuplicateKey(ReservedKey),
    /// The value of `schedule` or `plugin` is not a plain path reference.
    InvalidArgument(ReservedKey),
}

/// Blank bytes: space, tab, newline and carriage return.
pub open spec fn is_ws(c: u8) -> bool {
    c == 32 || c == 9 || c == 10 || c == 13
}

/// Bytes that may open a nesting group: `(`, `[`, `{`.
pub open spec fn is_opener(c: u8) -> bool {
    c == 40 || c == 91 || c == 123
}

/// Bytes that close a nesting group: `)`, `]`, `}`.
pub open spec fn is_closer(c: u8) -> bool {
    c == 41 || c == 93 || c == 125
}

/// Bytes that may start an identifier: a letter or `_`.
pub open spec fn is_ident_start(c: u8) -> bool {
    (65 <= c && c <= 90) || (97 <= c && c <= 122) || c == 95
}

/// Bytes that may continue an identifier: a letter, a digit or `_`.
pub open spec fn is_ident_cont(c: u8) -> bool {
    is_ident_start(c) || (48 <= c && c <= 57)
}

/// The reserved name `schedule`.
pub open spec fn kw_schedule() -> Seq<u8> {
    seq![115u8, 99, 104, 101, 100, 117, 108, 101]
}

/// The reserved name `plugin`.
pub open spec fn kw_plugin() -> Seq<u8> {
    seq![112u8, 108, 117, 103, 105, 110]
}

/// The first index in `[i, hi)` holding a non-blank byte, or `hi`.
pub open spec fn skip_ws(s: Seq<u8>, i: int, hi: int) -> int
    decreases hi - i,
{
    if i < hi && is_ws(s[i]) {
        skip_ws(s, i + 1, hi)
    } else {
        i
    }
}

/// The end of `[lo, hi)` with trailing blank bytes removed.
pub open spec fn rtrim(s: Seq<u8>, lo: int, hi: int) -> int
    decreases hi - lo,
{
    if lo < hi && is_ws(s[hi - 1]) {
        rtrim(s, lo, hi - 1)
    } else {
        hi
    }
}

/// What a scan for the next argument separator can find.
pub ghost enum ScanRes {
    /// A comma outside any bracket nesting, at this index.
    Found(int),
    /// No separating comma; the rest is one argument, brackets balanced.
    End,
    /// A closing bracket with no matching opener before the next separator.
    Unbalanced,
}

/// Scans from `i` with `depth` open brackets for the first comma outside any
/// nesting.
pub open spec fn scan_comma(s: Seq<u8>, i: int, depth: int) -> ScanRes
    decreases s.len() - i,
{
    if i < 0 || i >= s.len() {
        if depth == 0 {
            ScanRes::End
        } else {
            ScanRes::Unbalanced
        }
    } else if s[i] == 44 && depth == 0 {
        ScanRes::Found(i)
    } else if is_opener(s[i]) {
        scan_comma(s, i + 1, depth + 1)
    } else if is_closer(s[i]) {
        if depth == 0 {
            ScanRes::Unbalanced
        } else {
            scan_comma(s, i + 1, depth - 1)
        }
    } else {
        scan_comma(s, i + 1, depth)
    }
}

/// A comma found by the scan lies between the start of the scan and the end
/// of the input.
pub proof fn lemma_scan_comma_found(s: Seq<u8>, i: int, depth: int)
    ensures
        forall|j: int| scan_comma(s, i, depth) == ScanRes::Found(j) ==> i <= j < s.len(),
    decreases s.len() - i,
{
    if 0 <= i < s.len() {
        lemma_scan_comma_found(s, i + 1, depth + 1);
        lemma_scan_comma_found(s, i + 1, depth - 1);
        lemma_scan_comma_found(s, i + 1, depth);
    }
}

/// The first index of `=` in `[i, hi)`, if any.
pub open spec fn find_eq(s: Seq<u8>, i: int, hi: int) -> Option<int>
    decreases hi - i,
{
    if i < hi {
        if s[i] == 61 {
            Option::Some(i)
        } else {
            find_eq(s, i + 1, hi)
        }
    } else {
        Option::None
    }
}

/// Whether `[i, hi)` holds a `=` outside any bracket nesting, scanning with
/// `depth` open brackets. A value in which this holds is two pairs run
/// together without their separating comma.
pub open spec fn has_top_eq(s: Seq<u8>, i: int, hi: int, depth: int) -> bool
    decreases hi - i,
{
    if i >= hi {
        false
    } else if depth == 0 && s[i] == 61 {
        true
    } else if is_opener(s[i]) {
        has_top_eq(s, i + 1, hi, depth + 1)
    } else if is_closer(s[i]) {
        has_top_eq(s, i + 1, hi, if depth == 0 { 0 } else { depth - 1 })
    } else {
        has_top_eq(s, i + 1, hi, depth)
    }
}

/// `[lo, hi)` is a plain identifier.
pub open spec fn is_ident_range(s: Seq<u8>, lo: int, hi: int) -> bool {
    lo < hi && is_ident_start(s[lo]) && (forall|k: int| lo < k < hi ==> is_ident_cont(s[k]))
}

/// The state of the path-reference check: before a segment, inside a
/// segment, or after the first of the two colons of a separator.
#[derive(Clone, Copy, Debug, PartialEq, Eq, Structural)]
pub enum RefState {
    Start,
    Ident,
    Colon,
}

/// One byte at a time: a plain reference is identifier segments joined by
/// `::`, and must end inside a segment.
pub open spec fn ref_ok(s: Seq<u8>, i: int, hi: int, st: RefState) -> bool
    decreases hi - i,
{
    if i >= hi {
        st == RefState::Ident
    } else {
        match st {
            RefState::Start => is_ident_start(s[i]) && ref_ok(s, i + 1, hi, RefState::Ident),
            RefState::Ident => if is_ident_cont(s[i]) {
                ref_ok(s, i + 1, hi, RefState::Ident)
            } else if s[i] == 58 {
                ref_ok(s, i + 1, hi, RefState::Colon)
            } else {
                false
            },
            RefState::Colon => s[i] == 58 && ref_ok(s, i + 1, hi, RefState::Start),
        }
    }
}

/// `[lo, hi)` is a plain path reference: `a`, `a::b`, `a::b::c`, ...
pub open spec fn is_ref_range(s: Seq<u8>, lo: int, hi: int) -> bool {
    ref_ok(s, lo, hi, RefState::Start)
}

/// One argument, the bytes `[lo, hi)`: trims it, splits it at the first `=`,
/// and folds the pair into `acc` under the rules for reserved names.
pub open spec fn parse_entry(s: Seq<u8>, lo: int, hi: int, acc: SpecRecord) -> Result<
    SpecRecord,
    ParseError,
> {
    let a = skip_ws(s, lo, hi);
    let b = rtrim(s, a, hi);
    if a == b {
        Result::Err(ParseError::Syntax)
    } else {
        match find_eq(s, a, b) {
            Option::None => Result::Err(ParseError::Syntax),
            Option::Some(e) => {
                let ne = rtrim(s, a, e);
                let v = skip_ws(s, e + 1, b);
                if !is_ident_range(s, a, ne) {
                    Result::Err(ParseError::Syntax)
                } else if v == b {
                    Result::Err(ParseError::Syntax)
                } else if has_top_eq(s, v, b, 0) {
                    Result::Err(ParseError::Syntax)
                } else {
                    let name = s.subrange(a, ne);
                    let value = s.subrange(v, b);
                    if name == kw_schedule() {
                        if acc.schedule is Some {
                            Result::Err(ParseError::DuplicateKey(ReservedKey::Schedule))
                        } else if !is_ref_range(s, v, b) {
                            Result::Err(ParseError::InvalidArgument(ReservedKey::Schedule))
                        } else {
                            Result::Ok(
                                SpecRecord {
                                    plugin: acc.plugin,
                                    schedule: Option::Some(value),
                                    transforms: acc.transforms,
                                },
                            )
                        }
                    } else if name == kw_plugin() {
                        if acc.plugin is Some {
                            Result::Err(ParseError::DuplicateKey(ReservedKey::Plugin))
                        } else if !is_ref_range(s, v, b) {
                            Result::Err(ParseError::InvalidArgument(ReservedKey::Plugin))
                        } else {
                            Result::Ok(
                                SpecRecord {
                                    plugin: Option::Some(value),
                                    schedule: acc.schedule,
                                    transforms: acc.transforms,
                                },
                            )
                        }
                    } else {
                        Result::Ok(
                            SpecRecord {
                                plugin: acc.plugin,
                                schedule: acc.schedule,
                                transforms: acc.transforms.push((name, value)),
                            },
                        )
                    }
                }
            },
        }
    }
}

/// Folds the arguments of `s` from index `i` on into `acc`: stops when only
/// blanks remain (so a trailing comma is allowed), otherwise takes the bytes
/// up to the next separator as one argument.
pub open spec fn parse_from(s: Seq<u8>, i: int, acc: SpecRecord) -> Result<SpecRecord, ParseError>
    decreases s.len() - i,
    via parse_from_decreases
{
    if skip_ws(s, i, s.len() as int) == s.len() {
        Result::Ok(acc)
    } else {
        match scan_comma(s, i, 0) {
            ScanRes::Unbalanced => Result::Err(ParseError::Syntax),
            ScanRes::End => parse_entry(s, i, s.len() as int, acc),
            ScanRes::Found(j) => match parse_entry(s, i, j, acc) {
                Result::Err(e) => Result::Err(e),
                Result::Ok(a2) => parse_from(s, j + 1, a2),
            },
        }
    }
}

#[via_fn]
proof fn parse_from_decreases(s: Seq<u8>, i: int, acc: SpecRecord) {
    lemma_scan_comma_found(s, i, 0);
}

/// What parsing a whole argument list yields: the record folded from the
/// empty one, or the first error.
pub open spec fn spec_parse(s: Seq<u8>) -> Result<SpecRecord, ParseError> {
    parse_from(s, 0, empty_record())
}

/// Exec scan for the first non-blank byte in `[lo, hi)`.
fn skip_ws_exec(s: &[u8], lo: usize, hi: usize) -> (r: usize)
    requires
        lo <= hi <= s@.len(),
    ensures
        r == skip_ws(s@, lo as int, hi as int),
        lo <= r <= hi,
{
    let mut i: usize = lo;
    while i < hi && (s[i] == 32 || s[i] == 9 || s[i] == 10 || s[i] == 13)
        invariant
            lo <= i <= hi <= s@.len(),
            skip_ws(s@, lo as int, hi as int) == skip_ws(s@, i as int, hi as int),
        decreases hi - i,
    {
        i += 1;
    }
    i
}

/// Exec trim of trailing blanks from `[lo, hi)`.
fn rtrim_exec(s: &[u8], lo: usize, hi: usize) -> (r: usize)
    requires
        lo <= hi <= s@.len(),
    ensures
        r == rtrim(s@, lo as int, hi as int),
        lo <= r <= hi,
{
    let mut j: usize = hi;
    while j > lo && (s[j - 1] == 32 || s[j - 1] == 9 || s[j - 1] == 10 || s[j - 1] == 13)
        invariant
            lo <= j <= hi <= s@.len(),
            rtrim(s@, lo as int, hi as int) == rtrim(s@, lo as int, j as int),
        decreases j,
    {
        j -= 1;
    }
    j
}

/// Exec result of the separator scan.
#[derive(Clone, Copy, Debug, PartialEq, Eq, Structural)]
pub enum ScanOutcome {
    Found(usize),
    End,
    Unbalanced,
}

/// Exec scan from `lo` for the first comma outside any bracket nesting.
fn scan_comma_exec(s: &[u8], lo: usize) -> (r: ScanOutcome)
    requires
        lo <= s@.len(),
    ensures
        match r {
            ScanOutcome::Found(j) => scan_comma(s@, lo as int, 0) == ScanRes::Found(j as int) && lo
                <= j < s@.len(),
            ScanOutcome::End => scan_comma(s@, lo as int, 0) == ScanRes::End,
            ScanOutcome::Unbalanced => scan_comma(s@, lo as int, 0) == ScanRes::Unbalanced,
        },
{
    let mut i: usize = lo;
    let mut depth: usize = 0;
    while i < s.len()
        invariant
            lo <= i <= s@.len(),
            depth <= i - lo,
            scan_comma(s@, lo as int, 0) == scan_comma(s@, i as int, depth as int),
        decreases s@.len() - i,
    {
        let c = s[i];
        if c == 44 && depth == 0 {
            return ScanOutcome::Found(i);
        } else if c == 40 || c == 91 || c == 123 {
            depth += 1;
        } else if c == 41 || c == 93 || c == 125 {
            if depth == 0 {
                return ScanOutcome::Unbalanced;
            }
            depth -= 1;
        }
        i += 1;
    }
    if depth == 0 {
        ScanOutcome::End
    } else {
        ScanOutcome::Unbalanced
    }
}

/// Exec search for the first `=` in `[lo, hi)`.
fn find_eq_exec(s: &[u8], lo: usize, hi: usize) -> (r: Option<usize>)
    requires
        lo <= hi <= s@.len(),
    ensures
        match r {
            Option::Some(j) => find_eq(s@, lo as int, hi as int) == Option::Some(j as int) && lo
                <= j < hi,
            Option::None => find_eq(s@, lo as int, hi as int) is None,
        },
{
    let mut i: usize = lo;
    while i < hi
        invariant
            lo <= i <= hi <= s@.len(),
            find_eq(s@, lo as int, hi as int) == find_eq(s@, i as int, hi as int),
        decreases hi - i,
    {
        if s[i] == 61 {
            return Option::Some(i);
        }
        i += 1;
    }
    Option::None
}

/// Exec scan of `[lo, hi)` for a `=` outside any bracket nesting.
fn has_top_eq_exec(s: &[u8], lo: usize, hi: usize) -> (r: bool)
    requires
        lo <= hi <= s@.len(),
    ensures
        r == has_top_eq(s@, lo as int, hi as int, 0),
{
    let mut i: usize = lo;
    let mut depth: usize = 0;
    while i < hi
        invariant
            lo <= i <= hi <= s@.len(),
            has_top_eq(s@, lo as int, hi as int, 0) == has_top_eq(
                s@,
                i as int,
                hi as int,
                depth as int,
            ),
            depth <= i - lo,
        decreases hi - i,
    {
        let c = s[i];
        if depth == 0 && c == 61 {
            return true;
        } else if c == 40 || c == 91 || c == 123 {
            depth += 1;
        } else if c == 41 || c == 93 || c == 125 {
            if depth > 0 {
                depth -= 1;
            }
        }
        i += 1;
    }
    false
}

/// Exec check that `[lo, hi)` is a plain identifier.
fn is_ident_range_exec(s: &[u8], lo: usize, hi: usize) -> (r: bool)
    requires
        lo <= hi <= s@.len(),
    ensures
        r == is_ident_range(s@, lo as int, hi as int),
{
    if lo >= hi {
        return false;
    }
    let c0 = s[lo];
    if !((65 <= c0 && c0 <= 90) || (97 <= c0 && c0 <= 122) || c0 == 95) {
        return false;
    }
    let mut i: usize = lo + 1;
    while i < hi
        invariant
            lo < i <= hi <= s@.len(),
            is_ident_start(s@[lo as int]),
            forall|k: int| lo < k < i ==> is_ident_cont(s@[k]),
        decreases hi - i,
    {
        let c = s[i];
        if !((65 <= c && c <= 90) || (97 <= c && c <= 122) || c == 95 || (48 <= c && c <= 57)) {
            return false;
        }
        i += 1;
    }
    true
}

/// Exec check that `[lo, hi)` is a plain path reference.
fn is_ref_range_exec(s: &[u8], lo: usize, hi: usize) -> (r: bool)
    requires
        lo <= hi <= s@.len(),
    ensures
        r == is_ref_range(s@, lo as int, hi as int),
{
    let mut i: usize = lo;
    let mut st = RefState::Start;
    while i < hi
        invariant
            lo <= i <= hi <= s@.len(),
            is_ref_range(s@, lo as int, hi as int) == ref_ok(s@, i as int, hi as int, st),
        decreases hi - i,
    {
        let c = s[i];
        match st {
            RefState::Start => {
                if (65 <= c && c <= 90) || (97 <= c && c <= 122) || c == 95 {
                    st = RefState::Ident;
                } else {
                    return false;
                }
            },
            RefState::Ident => {
                if (65 <= c && c <= 90) || (97 <= c && c <= 122) || c == 95 || (48 <= c && c
                    <= 57) {
                    // still inside the segment
                } else if c == 58 {
                    st = RefState::Colon;
                } else {
                    return false;
                }
            },
            RefState::Colon => {
                if c == 58 {
                    st = RefState::Start;
                } else {
                    return false;
                }
            },
        }
        i += 1;
    }
    st == RefState::Ident
}

/// Exec comparison of `[lo, hi)` with the reserved name `schedule`.
fn range_is_schedule(s: &[u8], lo: usize, hi: usize) -> (r: bool)
    requires
        lo <= hi <= s@.len(),
    ensures
        r == (s@.subrange(lo as int, hi as int) == kw_schedule()),
{
    if hi - lo != 8 {
        assert(s@.subrange(lo as int, hi as int).len() != kw_schedule().len());
        return false;
    }
    let r = s[lo] == 115 && s[lo + 1] == 99 && s[lo + 2] == 104 && s[lo + 3] == 101 && s[lo + 4]
        == 100 && s[lo + 5] == 117 && s[lo + 6] == 108 && s[lo + 7] == 101;
    proof {
        if r {
            assert(s@.subrange(lo as int, hi as int) =~= kw_schedule());
        } else {
            if s@.subrange(lo as int, hi as int) == kw_schedule() {
                assert(forall|k: int|
                    0 <= k < 8 ==> s@.subrange(lo as int, hi as int)[k] == kw_schedule()[k]);
                assert(false);
            }
        }
    }
    r
}

/// Exec comparison of `[lo, hi)` with the reserved name `plugin`.
fn range_is_plugin(s: &[u8], lo: usize, hi: usize) -> (r: bool)
    requires
        lo <= hi <= s@.len(),
    ensures
        r == (s@.subrange(lo as int, hi as int) == kw_plugin()),
{
    if hi - lo != 6 {
        assert(s@.subrange(lo as int, hi as int).len() != kw_plugin().len());
        return false;
    }
    let r = s[lo] == 112 && s[lo + 1] == 108 && s[lo + 2] == 117 && s[lo + 3] == 103 && s[lo + 4]
        == 105 && s[lo + 5] == 110;
    proof {
        if r {
            assert(s@.subrange(lo as int, hi as int) =~= kw_plugin());
        } else {
            if s@.subrange(lo as int, hi as int) == kw_plugin() {
                assert(forall|k: int|
                    0 <= k < 6 ==> s@.subrange(lo as int, hi as int)[k] == kw_plugin()[k]);
                assert(false);
            }
        }
    }
    r
}

/// Exec parse of one argument, the bytes `[lo, hi)`, folded into `acc`.
fn parse_entry_exec(s: &[u8], lo: usize, hi: usize, acc: ConfigRecord) -> (r: Result<
    ConfigRecord,
    ParseError,
>)
    requires
        lo <= hi <= s@.len(),
    ensures
        match r {
            Result::Ok(rec) => parse_entry(s@, lo as int, hi as int, acc@) == Result::Ok::<
                SpecRecord,
                ParseError,
            >(rec@),
            Result::Err(e) => parse_entry(s@, lo as int, hi as int, acc@) == Result::Err::<
                SpecRecord,
                ParseError,
            >(e),
        },
{
    let a = skip_ws_exec(s, lo, hi);
    let b = rtrim_exec(s, a, hi);
    if a == b {
        return Result::Err(ParseError::Syntax);
    }
    let e = match find_eq_exec(s, a, b) {
        Option::None => {
            return Result::Err(ParseError::Syntax);
        },
        Option::Some(e) => e,
    };
    let ne = rtrim_exec(s, a, e);
    let v = skip_ws_exec(s, e + 1, b);
    if !is_ident_range_exec(s, a, ne) {
        return Result::Err(ParseError::Syntax);
    }
    if v == b {
        return Result::Err(ParseError::Syntax);
    }
    if has_top_eq_exec(s, v, b) {
        return Result::Err(ParseError::Syntax);
    }
    if range_is_schedule(s, a, ne) {
        if acc.schedule.is_some() {
            return Result::Err(ParseError::DuplicateKey(ReservedKey::Schedule));
        }
        if !is_ref_range_exec(s, v, b) {
            return Result::Err(ParseError::InvalidArgument(ReservedKey::Schedule));
        }
        let value = copy_range(s, v, b);
        let out = ConfigRecord {
            plugin: acc.plugin,
            schedule: Option::Some(value),
            transforms: acc.transforms,
        };
        proof {
            assert(parse_entry(s@, lo as int, hi as int, acc@) == Result::Ok::<
                SpecRecord,
                ParseError,
            >(out@)) by {
                assert(out@ =~= parse_entry(s@, lo as int, hi as int, acc@)->Ok_0);
            }
        }
        return Result::Ok(out);
    }
    if range_is_plugin(s, a, ne) {
        if acc.plugin.is_some() {
            return Result::Err(ParseError::DuplicateKey(ReservedKey::Plugin));
        }
        if !is_ref_range_exec(s, v, b) {
            return Result::Err(ParseError::InvalidArgument(ReservedKey::Plugin));
        }
        let value = copy_range(s, v, b);
        let out = ConfigRecord {
            plugin: Option::Some(value),
            schedule: acc.schedule,
            transforms: acc.transforms,
        };
        proof {
            assert(parse_entry(s@, lo as int, hi as int, acc@) == Result::Ok::<
                SpecRecord,
                ParseError,
            >(out@)) by {
                assert(out@ =~= parse_entry(s@, lo as int, hi as int, acc@)->Ok_0);
            }
        }
        return Result::Ok(out);
    }
    let name = copy_range(s, a, ne);
    let value = copy_range(s, v, b);
    let mut transforms = acc.transforms;
    let ghost prev = transforms@;
    transforms.push((name, value));
    let out = ConfigRecord { plugin: acc.plugin, schedule: acc.schedule, transforms };
    proof {
        assert(crate::record::pairs_view(prev.push((name, value))) =~= crate::record::pairs_view(
            prev,
        ).push((name@, value@)));
        assert(parse_entry(s@, lo as int, hi as int, acc@) == Result::Ok::<
            SpecRecord,
            ParseError,
        >(out@)) by {
            assert(out@ =~= parse_entry(s@, lo as int, hi as int, acc@)->Ok_0);
        }
    }
    Result::Ok(out)
}

/// Parses a whole argument list into a configuration record, or reports the
/// first error: `Syntax` for malformed grammar, `DuplicateKey` for a repeated
/// `schedule` or `plugin`, `InvalidArgument` for a reserved name whose value
/// is not a plain path reference. An empty list parses to the empty record.
pub fn parse_args(input: &[u8]) -> (r: Result<ConfigRecord, ParseError>)
    ensures
        match r {
            Result::Ok(rec) => spec_parse(input@) == Result::Ok::<SpecRecord, ParseError>(rec@),
            Result::Err(e) => spec_parse(input@) == Result::Err::<SpecRecord, ParseError>(e),
        },
{
    let mut rec = ConfigRecord::new();
    let mut i: usize = 0;
    loop
        invariant
            i <= input@.len(),
            spec_parse(input@) == parse_from(input@, i as int, rec@),
        decreases input@.len() - i,
    {
        let w = skip_ws_exec(input, i, input.len());
        if w == input.len() {
            return Result::Ok(rec);
        }
        match scan_comma_exec(input, i) {
            ScanOutcome::Unbalanced => {
                return Result::Err(ParseError::Syntax);
            },
            ScanOutcome::End => {
                return parse_entry_exec(input, i, input.len(), rec);
            },
            ScanOutcome::Found(j) => {
                match parse_entry_exec(input, i, j, rec) {
                    Result::Err(e) => {
                        return Result::Err(e);
                    },
                    Result::Ok(r2) => {
                        rec = r2;
                        i = j + 1;
                    },
                }
            },
        }
    }
}

} // verus!
