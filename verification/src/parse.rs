//! The component and sequence parsers, and their mathematical model.
//!
//! The grammar is modelled over the character sequence of the input.  One
//! component is a maximal digit run, optional whitespace, a maximal
//! alphabetic run that must be a known unit alias, and optional trailing
//! whitespace ([`component_at`]).  A duration expression is as many
//! components as will parse ([`components_from`]); an unknown unit after a
//! valid number aborts the whole parse, while a position where no component
//! can start merely ends the sequence.

use vstd::prelude::*;
use vstd::string::StrSliceExecFns;
use vstd::string::StringExecFns;
use crate::chars::is_alpha_char;
use crate::chars::is_digit_char;
use crate::chars::is_space_char;
use crate::chars::num_val;
use crate::duration::DurationValue;
use crate::duration::accumulate_duration;
use crate::duration::clamped_total_ms;
use crate::scale::TimeScale;
use crate::scale::scale_of;
use crate::tuple::TimeTuple;

verus! {

/// The index just past the maximal run of digit characters starting at `i`.
pub open spec fn digit_end(s: Seq<char>, i: int) -> int
    decreases s.len() - i,
{
    if i < 0 || i >= s.len() {
        i
    } else if is_digit_char(s[i]) {
        digit_end(s, i + 1)
    } else {
        i
    }
}

/// The index just past the maximal run of whitespace starting at `i`.
pub open spec fn space_end(s: Seq<char>, i: int) -> int
    decreases s.len() - i,
{
    if i < 0 || i >= s.len() {
        i
    } else if is_space_char(s[i]) {
        space_end(s, i + 1)
    } else {
        i
    }
}

/// The index just past the maximal run of alphabetic characters starting at
/// `i`.
pub open spec fn alpha_end(s: Seq<char>, i: int) -> int
    decreases s.len() - i,
{
    if i < 0 || i >= s.len() {
        i
    } else if is_alpha_char(s[i]) {
        alpha_end(s, i + 1)
    } else {
        i
    }
}

/// The three run ends stay inside the input.
pub proof fn lemma_run_end_bounds(s: Seq<char>, i: int)
    requires
        0 <= i <= s.len(),
    ensures
        i <= digit_end(s, i) <= s.len(),
        i <= space_end(s, i) <= s.len(),
        i <= alpha_end(s, i) <= s.len(),
    decreases s.len() - i,
{
    if i < s.len() {
        lemma_run_end_bounds(s, i + 1);
    }
}

/// A run end is exactly the first position past `i` whose character leaves
/// the class; stated here for digits.
pub proof fn lemma_digit_end_is(s: Seq<char>, i: int, j: int)
    requires
        0 <= i <= j <= s.len(),
        forall|k: int| i <= k < j ==> is_digit_char(#[trigger] s[k]),
        j == s.len() || !is_digit_char(s[j]),
    ensures
        digit_end(s, i) == j,
    decreases j - i,
{
    if i < j {
        lemma_digit_end_is(s, i + 1, j);
    }
}

/// The whitespace analogue of [`lemma_digit_end_is`].
pub proof fn lemma_space_end_is(s: Seq<char>, i: int, j: int)
    requires
        0 <= i <= j <= s.len(),
        forall|k: int| i <= k < j ==> is_space_char(#[trigger] s[k]),
        j == s.len() || !is_space_char(s[j]),
    ensures
        space_end(s, i) == j,
    decreases j - i,
{
    if i < j {
        lemma_space_end_is(s, i + 1, j);
    }
}

/// The alphabetic analogue of [`lemma_digit_end_is`].
pub proof fn lemma_alpha_end_is(s: Seq<char>, i: int, j: int)
    requires
        0 <= i <= j <= s.len(),
        forall|k: int| i <= k < j ==> is_alpha_char(#[trigger] s[k]),
        j == s.len() || !is_alpha_char(s[j]),
    ensures
        alpha_end(s, i) == j,
    decreases j - i,
{
    if i < j {
        lemma_alpha_end_is(s, i + 1, j);
    }
}

/// What one attempt to parse a component at a position yields.
///
/// `Miss` is the recoverable outcome: no digits here, a magnitude above
/// 65535, or no alphabetic token after the number.  `BadUnit` is the
/// unrecoverable outcome: a number was read but the token at
/// `s[unit_from..unit_to]` is not in the unit lexicon.
#[verifier::ext_equal]
pub enum ComponentOutcome {
    Found { tuple: TimeTuple, next: int },
    Miss,
    BadUnit { unit_from: int, unit_to: int },
}

/// Parses one `<number><unit>` component at position `i`: a maximal digit
/// run whose value must fit in 16 bits, whitespace, a maximal alphabetic
/// run that must be a known alias, then trailing whitespace.
pub open spec fn component_at(s: Seq<char>, i: int) -> ComponentOutcome {
    let dend = digit_end(s, i);
    if dend == i {
        ComponentOutcome::Miss
    } else if num_val(s.subrange(i, dend)) > 65535 {
        ComponentOutcome::Miss
    } else {
        let ustart = space_end(s, dend);
        let uend = alpha_end(s, ustart);
        if uend == ustart {
            ComponentOutcome::Miss
        } else {
            match scale_of(s.subrange(ustart, uend)) {
                Some(sc) => ComponentOutcome::Found {
                    tuple: TimeTuple(num_val(s.subrange(i, dend)) as u16, sc),
                    next: space_end(s, uend),
                },
                None => ComponentOutcome::BadUnit { unit_from: ustart, unit_to: uend },
            }
        }
    }
}

/// A found component consumes at least one character and stays inside the
/// input, and a bad unit token is a non-empty range inside the input.
pub proof fn lemma_component_at_bounds(s: Seq<char>, i: int)
    requires
        0 <= i <= s.len(),
    ensures
        match component_at(s, i) {
            ComponentOutcome::Found { tuple, next } => i < next <= s.len(),
            ComponentOutcome::Miss => true,
            ComponentOutcome::BadUnit { unit_from, unit_to } => i <= unit_from < unit_to
                <= s.len(),
        },
{
    lemma_run_end_bounds(s, i);
    let dend = digit_end(s, i);
    if dend != i && num_val(s.subrange(i, dend)) <= 65535 {
        lemma_run_end_bounds(s, dend);
        let ustart = space_end(s, dend);
        lemma_run_end_bounds(s, ustart);
        let uend = alpha_end(s, ustart);
        if uend != ustart {
            lemma_run_end_bounds(s, uend);
        }
    }
}

/// What parsing a whole duration expression yields: the components in
/// arrival order plus the position the unconsumed rest starts at, or the
/// span of the offending token when a component had an unknown unit.
#[verifier::ext_equal]
pub enum SequenceOutcome {
    Parsed { items: Seq<TimeTuple>, rest_from: int },
    BadUnit { unit_from: int, unit_to: int },
}

/// Parses components at `i`, then at each following position, until one
/// position misses; an unknown unit anywhere aborts the whole parse.
/// An empty `items` means the very first attempt missed.
pub open spec fn components_from(s: Seq<char>, i: int) -> SequenceOutcome
    decreases s.len() - i,
        when 0 <= i <= s.len()
{
    match component_at(s, i) {
        ComponentOutcome::Miss => SequenceOutcome::Parsed { items: seq![], rest_from: i },
        ComponentOutcome::BadUnit { unit_from, unit_to } => SequenceOutcome::BadUnit {
            unit_from,
            unit_to,
        },
        ComponentOutcome::Found { tuple, next } => {
            proof {
                lemma_component_at_bounds(s, i);
            }
            match components_from(s, next) {
                SequenceOutcome::Parsed { items, rest_from } => SequenceOutcome::Parsed {
                    items: seq![tuple] + items,
                    rest_from,
                },
                SequenceOutcome::BadUnit { unit_from, unit_to } => SequenceOutcome::BadUnit {
                    unit_from,
                    unit_to,
                },
            }
        },
    }
}

/// Prepends already-parsed components to a sequence outcome; failure
/// swallows them.
pub open spec fn with_prefix(acc: Seq<TimeTuple>, o: SequenceOutcome) -> SequenceOutcome {
    match o {
        SequenceOutcome::Parsed { items, rest_from } => SequenceOutcome::Parsed {
            items: acc + items,
            rest_from,
        },
        SequenceOutcome::BadUnit { unit_from, unit_to } => SequenceOutcome::BadUnit {
            unit_from,
            unit_to,
        },
    }
}

/// Unfolds one successful component out of the whole-expression parse.
pub proof fn lemma_components_from_step(s: Seq<char>, i: int)
    requires
        0 <= i <= s.len(),
        component_at(s, i) is Found,
    ensures
        components_from(s, i) == with_prefix(
            seq![component_at(s, i)->Found_tuple],
            components_from(s, component_at(s, i)->Found_next),
        ),
{
    lemma_component_at_bounds(s, i);
    let next = component_at(s, i)->Found_next;
    match components_from(s, next) {
        SequenceOutcome::Parsed { items, rest_from } => {},
        SequenceOutcome::BadUnit { unit_from, unit_to } => {},
    }
}

/// Prefixes compose by concatenation.
pub proof fn lemma_with_prefix_assoc(a: Seq<TimeTuple>, b: Seq<TimeTuple>, o: SequenceOutcome)
    ensures
        with_prefix(a, with_prefix(b, o)) == with_prefix(a + b, o),
{
    match o {
        SequenceOutcome::Parsed { items, rest_from } => {
            assert(a + (b + items) =~= (a + b) + items);
        },
        SequenceOutcome::BadUnit { unit_from, unit_to } => {},
    }
}

/// A magnitude above 65535 is rejected as a recoverable miss — the
/// component is not truncated to 16 bits, and the failure is not the fatal
/// kind.
pub proof fn lemma_magnitude_cap(s: Seq<char>, i: int)
    requires
        0 <= i <= s.len(),
        num_val(s.subrange(i, digit_end(s, i))) > 65535,
    ensures
        component_at(s, i) is Miss,
{
}

/// Any lexicon alias after any representable magnitude parses to exactly
/// that one component, with nothing left over: for every alias `t` of
/// scale `sc` and every `n` up to 65535, the input made of `n`'s decimal
/// numeral followed by `t` parses to the single component `(n, sc)`.
pub proof fn lemma_alias_parses(n: nat, t: Seq<char>, sc: TimeScale)
    requires
        n <= 65535,
        scale_of(t) == Some(sc),
    ensures
        components_from(crate::chars::dec_digits(n) + t, 0) == (SequenceOutcome::Parsed {
            items: seq![TimeTuple(n as u16, sc)],
            rest_from: (crate::chars::dec_digits(n) + t).len() as int,
        }),
{
    let d = crate::chars::dec_digits(n);
    let s = d + t;
    let dl = d.len() as int;
    let sl = s.len() as int;
    crate::chars::lemma_dec_digits_are_digits(n);
    crate::chars::lemma_dec_digits_roundtrip(n);
    crate::scale::lemma_alias_token_alpha(t);
    // The digit run is exactly the numeral.
    assert(forall|k: int| 0 <= k < dl ==> is_digit_char(#[trigger] s[k]));
    assert(s[dl] == t[0]);
    assert(!is_digit_char(s[dl]));
    lemma_digit_end_is(s, 0, dl);
    assert(s.subrange(0, dl) =~= d);
    // No whitespace separates numeral and token here.
    lemma_space_end_is(s, dl, dl);
    // The alphabetic run is exactly the alias, and it ends the input.
    assert(forall|k: int| dl <= k < sl ==> is_alpha_char(#[trigger] s[k]));
    lemma_alpha_end_is(s, dl, sl);
    assert(s.subrange(dl, sl) =~= t);
    lemma_space_end_is(s, sl, sl);
    assert(component_at(s, 0) == ComponentOutcome::Found {
        tuple: TimeTuple(n as u16, sc),
        next: sl,
    });
    // Nothing follows the component, so the sequence stops there.
    lemma_components_from_step(s, 0);
    assert(digit_end(s, sl) == sl);
    assert(components_from(s, sl) == SequenceOutcome::Parsed { items: seq![], rest_from: sl });
    assert(seq![TimeTuple(n as u16, sc)] + seq![] =~= seq![TimeTuple(n as u16, sc)]);
}

/// Whether `c` is an ASCII decimal digit.
fn is_digit_exec(c: char) -> (r: bool)
    ensures
        r == is_digit_char(c),
{
    ('0' as u32) <= (c as u32) && (c as u32) <= ('9' as u32)
}

/// Whether `c` is an ASCII alphabetic character.
fn is_alpha_exec(c: char) -> (r: bool)
    ensures
        r == is_alpha_char(c),
{
    (('a' as u32) <= (c as u32) && (c as u32) <= ('z' as u32)) || (('A' as u32) <= (c as u32) && (c
        as u32) <= ('Z' as u32))
}

/// Whether `c` is accepted as whitespace around a unit token.
fn is_space_exec(c: char) -> (r: bool)
    ensures
        r == is_space_char(c),
{
    c == ' ' || c == '\t' || c == '\n' || c == '\r'
}

/// The characters of `s`, one vector element per character.
fn chars_of(s: &str) -> (cs: Vec<char>)
    ensures
        cs@ == s@,
{
    let n = s.unicode_len();
    let mut cs: Vec<char> = Vec::new();
    let mut k: usize = 0;
    while k < n
        invariant
            k <= n,
            n == s@.len(),
            cs@ == s@.subrange(0, k as int),
        decreases n - k,
    {
        cs.push(s.get_char(k));
        proof {
            assert(s@.subrange(0, k as int).push(s@[k as int]) =~= s@.subrange(0, k as int + 1));
        }
        k = k + 1;
    }
    proof {
        assert(s@.subrange(0, n as int) =~= s@);
    }
    cs
}

/// Walks past the digit run starting at `from`.
fn scan_digits(cs: &Vec<char>, from: usize) -> (j: usize)
    requires
        from <= cs@.len(),
    ensures
        j as int == digit_end(cs@, from as int),
        from <= j <= cs@.len(),
{
    let mut j = from;
    while j < cs.len() && is_digit_exec(cs[j])
        invariant
            from <= j <= cs@.len(),
            digit_end(cs@, from as int) == digit_end(cs@, j as int),
        decreases cs@.len() - j,
    {
        j = j + 1;
    }
    j
}

/// Walks past the whitespace run starting at `from`.
fn scan_spaces(cs: &Vec<char>, from: usize) -> (j: usize)
    requires
        from <= cs@.len(),
    ensures
        j as int == space_end(cs@, from as int),
        from <= j <= cs@.len(),
{
    let mut j = from;
    while j < cs.len() && is_space_exec(cs[j])
        invariant
            from <= j <= cs@.len(),
            space_end(cs@, from as int) == space_end(cs@, j as int),
        decreases cs@.len() - j,
    {
        j = j + 1;
    }
    j
}

/// Walks past the alphabetic run starting at `from`.
fn scan_alphas(cs: &Vec<char>, from: usize) -> (j: usize)
    requires
        from <= cs@.len(),
    ensures
        j as int == alpha_end(cs@, from as int),
        from <= j <= cs@.len(),
{
    let mut j = from;
    while j < cs.len() && is_alpha_exec(cs[j])
        invariant
            from <= j <= cs@.len(),
            alpha_end(cs@, from as int) == alpha_end(cs@, j as int),
        decreases cs@.len() - j,
    {
        j = j + 1;
    }
    j
}

/// Reads the digit run starting at `from` as a decimal number.  Returns
/// the end of the run, and the run's value when it fits in 16 bits or the
/// sentinel 65536 when it does not: the grammar rejects larger magnitudes
/// recoverably, however long the run is, without overflowing.
fn scan_number(cs: &Vec<char>, from: usize) -> (r: (usize, u32))
    requires
        from <= cs@.len(),
    ensures
        r.0 as int == digit_end(cs@, from as int),
        from <= r.0 <= cs@.len(),
        ({
            let v = num_val(cs@.subrange(from as int, r.0 as int));
            if v <= 65535 {
                r.1 == v
            } else {
                r.1 == 65536
            }
        }),
{
    let mut j = from;
    let mut acc: u32 = 0;
    while j < cs.len() && is_digit_exec(cs[j])
        invariant
            from <= j <= cs@.len(),
            digit_end(cs@, from as int) == digit_end(cs@, j as int),
            ({
                let v = num_val(cs@.subrange(from as int, j as int));
                if v <= 65535 {
                    acc == v
                } else {
                    acc == 65536
                }
            }),
        decreases cs@.len() - j,
    {
        let ghost pref = cs@.subrange(from as int, j as int);
        let c = cs[j];
        let d = (c as u32) - ('0' as u32);
        proof {
            crate::chars::lemma_num_val_push_grows(pref, c);
            assert(cs@.subrange(from as int, j as int + 1) =~= pref.push(c));
        }
        if acc <= 65535 {
            let na = acc * 10 + d;
            if na > 65535 {
                acc = 65536;
            } else {
                acc = na;
            }
        }
        j = j + 1;
    }
    (j, acc)
}

/// Whether the characters of `cs` in `[from, to)` spell exactly the
/// literal `lit`.
fn tok_eq(cs: &Vec<char>, from: usize, to: usize, lit: &str) -> (r: bool)
    requires
        from <= to <= cs@.len(),
    ensures
        r == (cs@.subrange(from as int, to as int) == lit@),
{
    let n = lit.unicode_len();
    if n != to - from {
        return false;
    }
    let mut k: usize = 0;
    while k < n
        invariant
            k <= n,
            n == lit@.len(),
            n == to - from,
            from <= to <= cs@.len(),
            forall|m: int| 0 <= m < k ==> cs@[from + m] == lit@[m],
        decreases n - k,
    {
        if cs[from + k] != lit.get_char(k) {
            return false;
        }
        k = k + 1;
    }
    proof {
        assert(cs@.subrange(from as int, to as int) =~= lit@);
    }
    true
}

/// Looks a candidate unit token up in the unit lexicon.
fn lookup_scale(cs: &Vec<char>, from: usize, to: usize) -> (r: Option<TimeScale>)
    requires
        from <= to <= cs@.len(),
    ensures
        r == scale_of(cs@.subrange(from as int, to as int)),
{
    if tok_eq(cs, from, to, "y") || tok_eq(cs, from, to, "year") || tok_eq(cs, from, to, "years")
        || tok_eq(cs, from, to, "t") || tok_eq(cs, from, to, "thn") || tok_eq(
        cs,
        from,
        to,
        "tahun",
    ) {
        Some(TimeScale::Years)
    } else if tok_eq(cs, from, to, "M") || tok_eq(cs, from, to, "mo") || tok_eq(
        cs,
        from,
        to,
        "month",
    ) || tok_eq(cs, from, to, "months") || tok_eq(cs, from, to, "b") || tok_eq(cs, from, to, "bln")
        || tok_eq(cs, from, to, "bulan") {
        Some(TimeScale::Months)
    } else if tok_eq(cs, from, to, "w") || tok_eq(cs, from, to, "wk") || tok_eq(
        cs,
        from,
        to,
        "week",
    ) || tok_eq(cs, from, to, "weeks") || tok_eq(cs, from, to, "mng") || tok_eq(
        cs,
        from,
        to,
        "minggu",
    ) {
        Some(TimeScale::Weeks)
    } else if tok_eq(cs, from, to, "d") || tok_eq(cs, from, to, "day") || tok_eq(
        cs,
        from,
        to,
        "days",
    ) || tok_eq(cs, from, to, "hari") {
        Some(TimeScale::Days)
    } else if tok_eq(cs, from, to, "h") || tok_eq(cs, from, to, "hr") || tok_eq(cs, from, to, "hrs")
        || tok_eq(cs, from, to, "hour") || tok_eq(cs, from, to, "hours") || tok_eq(
        cs,
        from,
        to,
        "j",
    ) || tok_eq(cs, from, to, "jam") {
        Some(TimeScale::Hours)
    } else if tok_eq(cs, from, to, "m") || tok_eq(cs, from, to, "min") || tok_eq(
        cs,
        from,
        to,
        "mins",
    ) || tok_eq(cs, from, to, "minute") || tok_eq(cs, from, to, "minutes") || tok_eq(
        cs,
        from,
        to,
        "mnt",
    ) || tok_eq(cs, from, to, "menit") {
        Some(TimeScale::Minutes)
    } else if tok_eq(cs, from, to, "s") || tok_eq(cs, from, to, "sec") || tok_eq(
        cs,
        from,
        to,
        "secs",
    ) || tok_eq(cs, from, to, "second") || tok_eq(cs, from, to, "seconds") || tok_eq(
        cs,
        from,
        to,
        "dtk",
    ) || tok_eq(cs, from, to, "detik") {
        Some(TimeScale::Seconds)
    } else if tok_eq(cs, from, to, "ms") || tok_eq(cs, from, to, "mil") || tok_eq(
        cs,
        from,
        to,
        "mill",
    ) || tok_eq(cs, from, to, "milli") || tok_eq(cs, from, to, "millis") || tok_eq(
        cs,
        from,
        to,
        "msec",
    ) || tok_eq(cs, from, to, "msecs") || tok_eq(cs, from, to, "milisec") || tok_eq(
        cs,
        from,
        to,
        "milisecond",
    ) || tok_eq(cs, from, to, "miliseconds") {
        Some(TimeScale::Milliseconds)
    } else {
        None
    }
}

/// The executable mirror of [`ComponentOutcome`], with machine indices.
enum ComponentStep {
    Found { tuple: TimeTuple, next: usize },
    Miss,
    BadUnit { unit_from: usize, unit_to: usize },
}

/// Attempts to parse one component at `from`, as [`component_at`] says.
fn component_exec(cs: &Vec<char>, from: usize) -> (r: ComponentStep)
    requires
        from <= cs@.len(),
    ensures
        ({
            let o = component_at(cs@, from as int);
            match r {
                ComponentStep::Found { tuple, next } => o == (ComponentOutcome::Found {
                    tuple,
                    next: next as int,
                }) && from < next <= cs@.len(),
                ComponentStep::Miss => o == ComponentOutcome::Miss,
                ComponentStep::BadUnit { unit_from, unit_to } => o == (ComponentOutcome::BadUnit {
                    unit_from: unit_from as int,
                    unit_to: unit_to as int,
                }) && from <= unit_from && unit_from < unit_to <= cs@.len(),
            }
        }),
{
    proof {
        lemma_component_at_bounds(cs@, from as int);
    }
    let (dend, val) = scan_number(cs, from);
    if dend == from {
        return ComponentStep::Miss;
    }
    if val > 65535 {
        return ComponentStep::Miss;
    }
    let ustart = scan_spaces(cs, dend);
    let uend = scan_alphas(cs, ustart);
    if uend == ustart {
        return ComponentStep::Miss;
    }
    match lookup_scale(cs, ustart, uend) {
        Some(sc) => {
            let next = scan_spaces(cs, uend);
            ComponentStep::Found { tuple: TimeTuple::make(val as u16, sc), next }
        },
        None => ComponentStep::BadUnit { unit_from: ustart, unit_to: uend },
    }
}

/// The executable mirror of [`SequenceOutcome`], with machine indices.
enum SequenceStep {
    Parsed { items: Vec<TimeTuple>, rest_from: usize },
    BadUnit { unit_from: usize, unit_to: usize },
}

/// Parses components from the start of `cs` until one position misses, as
/// [`components_from`] says.
fn components_exec(cs: &Vec<char>) -> (r: SequenceStep)
    ensures
        ({
            let o = components_from(cs@, 0);
            match r {
                SequenceStep::Parsed { items, rest_from } => o == (SequenceOutcome::Parsed {
                    items: items@,
                    rest_from: rest_from as int,
                }) && rest_from <= cs@.len(),
                SequenceStep::BadUnit { unit_from, unit_to } => o == (SequenceOutcome::BadUnit {
                    unit_from: unit_from as int,
                    unit_to: unit_to as int,
                }) && unit_from < unit_to <= cs@.len(),
            }
        }),
{
    let mut items: Vec<TimeTuple> = Vec::new();
    let mut pos: usize = 0;
    loop
        invariant
            pos <= cs@.len(),
            components_from(cs@, 0) == with_prefix(items@, components_from(cs@, pos as int)),
        decreases cs@.len() - pos,
    {
        match component_exec(cs, pos) {
            ComponentStep::Found { tuple, next } => {
                proof {
                    lemma_components_from_step(cs@, pos as int);
                    lemma_with_prefix_assoc(
                        items@,
                        seq![tuple],
                        components_from(cs@, next as int),
                    );
                    assert(items@ + seq![tuple] =~= items@.push(tuple));
                }
                items.push(tuple);
                pos = next;
            },
            ComponentStep::Miss => {
                proof {
                    assert(items@ + seq![] =~= items@);
                }
                return SequenceStep::Parsed { items, rest_from: pos };
            },
            ComponentStep::BadUnit { unit_from, unit_to } => {
                return SequenceStep::BadUnit { unit_from, unit_to };
            },
        }
    }
}

/// Why a parse call failed.
///
/// The two variants are the two severities of the grammar: a recoverable
/// miss that surfaces only when the input's very first position cannot
/// start a component, and the unrecoverable unknown-unit failure, which
/// aborts the parse wherever it happens.  Both carry the text a caller
/// needs for a diagnostic.
#[derive(Debug)]
pub enum ParseError {
    /// No component starts at the beginning of the input: no digits there,
    /// or a magnitude above 65535, or no unit token after the number.
    /// Carries the whole unconsumed input.
    NoComponent { rest: String },
    /// A number was read but the token that follows it is not in the unit
    /// lexicon.  Carries the offending token and the text from just after
    /// it.
    UnknownUnit { unit: String, rest: String },
}

impl ParseError {
    /// Whether the failure is the recoverable kind.
    pub fn is_recoverable(&self) -> (r: bool)
        ensures
            r == (self is NoComponent),
    {
        match self {
            ParseError::NoComponent { .. } => true,
            ParseError::UnknownUnit { .. } => false,
        }
    }
}

/// Parses a duration string into its components, in arrival order.
///
/// On success the components are returned together with the unconsumed
/// rest of the input; text after the last component is not an error here.
/// The call fails if no component starts at the beginning of the input,
/// and fails unrecoverably if any component's unit token is unknown, as
/// [`components_from`] says.  Each component's magnitude is at most 65535.
pub fn parse_timestring<'a>(input: &'a str) -> (r: Result<(&'a str, Vec<TimeTuple>), ParseError>)
    ensures
        ({
            let o = components_from(input@, 0);
            match r {
                Ok((rest, items)) => o == (SequenceOutcome::Parsed {
                    items: items@,
                    rest_from: input@.len() - rest@.len(),
                }) && items@.len() > 0 && rest@ == input@.subrange(
                    input@.len() - rest@.len(),
                    input@.len() as int,
                ),
                Err(ParseError::NoComponent { rest }) => o == (SequenceOutcome::Parsed {
                    items: seq![],
                    rest_from: 0,
                }) && rest@ == input@,
                Err(ParseError::UnknownUnit { unit, rest }) => {
                    &&& o is BadUnit
                    &&& unit@ == input@.subrange(o->BadUnit_unit_from, o->BadUnit_unit_to)
                    &&& rest@ == input@.subrange(o->BadUnit_unit_to, input@.len() as int)
                },
            }
        }),
{
    let cs = chars_of(input);
    let n = cs.len();
    match components_exec(&cs) {
        SequenceStep::Parsed { items, rest_from } => {
            if items.len() == 0 {
                Err(ParseError::NoComponent { rest: String::from_str(input) })
            } else {
                let rest = input.substring_char(rest_from, n);
                Ok((rest, items))
            }
        },
        SequenceStep::BadUnit { unit_from, unit_to } => {
            let unit = String::from_str(input.substring_char(unit_from, unit_to));
            let rest = String::from_str(input.substring_char(unit_to, n));
            Err(ParseError::UnknownUnit { unit, rest })
        },
    }
}

/// Parses a duration string and folds its components into one total
/// duration with saturating arithmetic.
///
/// Success and failure are exactly those of [`parse_timestring`]; on
/// success the duration is the clamped millisecond total of the parsed
/// components.
pub fn parse_timestring_as_duration<'a>(input: &'a str) -> (r: Result<
    (&'a str, DurationValue),
    ParseError,
>)
    ensures
        ({
            let o = components_from(input@, 0);
            match r {
                Ok((rest, d)) => {
                    &&& o is Parsed
                    &&& o->Parsed_items.len() > 0
                    &&& d@ == clamped_total_ms(o->Parsed_items)
                    &&& o->Parsed_rest_from == input@.len() - rest@.len()
                    &&& rest@ == input@.subrange(
                        input@.len() - rest@.len(),
                        input@.len() as int,
                    )
                },
                Err(ParseError::NoComponent { rest }) => o == (SequenceOutcome::Parsed {
                    items: seq![],
                    rest_from: 0,
                }) && rest@ == input@,
                Err(ParseError::UnknownUnit { unit, rest }) => {
                    &&& o is BadUnit
                    &&& unit@ == input@.subrange(o->BadUnit_unit_from, o->BadUnit_unit_to)
                    &&& rest@ == input@.subrange(o->BadUnit_unit_to, input@.len() as int)
                },
            }
        }),
{
    match parse_timestring(input) {
        Ok((rest, items)) => {
            let d = accumulate_duration(&items);
            Ok((rest, d))
        },
        Err(e) => Err(e),
    }
}

} // verus!
