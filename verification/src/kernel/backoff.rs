//! Delays between the attempts of a failing job.

use vstd::prelude::*;
use crate::msgpack::{law_uint_unambiguous, lemma_no_entries, lemma_same_rest, lemma_with_entry, packed_map, with_entry};
use crate::msgpack::{map_head, packed_str, packed_uint, write_map_len, write_str, write_uint};
use crate::text::same_text;
use vstd::arithmetic::power2::{lemma_pow2_pos, lemma_pow2_strictly_increases, lemma_pow2_unfold, pow2};

verus! {

/// How long to wait before a failed job runs again. All times are milliseconds.
#[derive(Debug, Clone, Copy, PartialEq, Eq, Structural)]
pub enum BackoffStrategy {
    /// The same delay before every retry.
    Fixed(u64),
    /// `base`, `2 * base`, `4 * base` and so on, never more than `max`.
    Exponential { base: u64, max: u64 },
}

/// The smaller of two integers.
pub open spec fn min_int(a: int, b: int) -> int {
    if a <= b {
        a
    } else {
        b
    }
}

/// How many times the base delay has doubled before the given attempt; attempt 0
/// counts as the first.
pub open spec fn doublings(attempt: nat) -> nat {
    if attempt == 0 {
        0
    } else {
        (attempt - 1) as nat
    }
}

/// The delay before the retry that follows `attempt`.
pub open spec fn delay_after(strategy: BackoffStrategy, attempt: nat) -> int {
    match strategy {
        BackoffStrategy::Fixed(ms) => ms as int,
        BackoffStrategy::Exponential { base, max } => min_int(
            base * pow2(doublings(attempt)),
            max as int,
        ),
    }
}

/// Computes the retry delay in milliseconds for the given attempt number, counted from 1.
pub fn compute_delay(strategy: &BackoffStrategy, attempt: u32) -> (delay: u64)
    ensures
        delay == delay_after(*strategy, attempt as nat),
{
    match strategy {
        BackoffStrategy::Fixed(ms) => *ms,
        BackoffStrategy::Exponential { base, max } => capped_doubling(
            *base,
            attempt.saturating_sub(1),
            *max,
        ),
    }
}

/// `base` doubled `times` times, stopping at `max`.
fn capped_doubling(base: u64, times: u32, max: u64) -> (delay: u64)
    ensures
        delay == min_int(base * pow2(times as nat), max as int),
{
    let mut delay: u64 = base;
    let mut done: u32 = 0;
    proof {
        assert(pow2(0) == 1) by {
            vstd::arithmetic::power2::lemma2_to64();
        }
        assert(base * 1 == base);
    }
    while done < times && delay > 0 && delay < max
        invariant
            done <= times,
            delay == base * pow2(done as nat),
        decreases times - done,
    {
        proof {
            lemma_pow2_unfold((done + 1) as nat);
            assert(base * (2 * pow2(done as nat)) == 2 * (base * pow2(done as nat)))
                by (nonlinear_arith);
        }
        if delay > max / 2 {
            proof {
                lemma_scaled_pow2_monotone(base as nat, (done + 1) as nat, times as nat);
            }
            return max;
        }
        delay = delay * 2;
        done = done + 1;
    }
    proof {
        lemma_scaled_pow2_monotone(base as nat, done as nat, times as nat);
        if delay == 0 {
            lemma_pow2_pos(done as nat);
            assert(base == 0) by (nonlinear_arith)
                requires
                    base * pow2(done as nat) == 0,
                    pow2(done as nat) > 0,
            ;
            assert(base * pow2(times as nat) == 0) by (nonlinear_arith)
                requires
                    base == 0,
            ;
        }
    }
    if delay < max {
        delay
    } else {
        max
    }
}

/// More doublings never make a scaled power of two smaller.
proof fn lemma_scaled_pow2_monotone(base: nat, few: nat, many: nat)
    requires
        few <= many,
    ensures
        base * pow2(few) <= base * pow2(many),
{
    if few < many {
        lemma_pow2_strictly_increases(few, many);
    }
    let (a, b) = (pow2(few), pow2(many));
    assert(base * a <= base * b) by (nonlinear_arith)
        requires
            a <= b,
    ;
}

/// The entries of a strategy as it stands in a job's options: `{"type":"fixed","delay":N}` or
/// `{"type":"exponential","delay":N,"max":N}`. Also read is a variant with its values, as in
/// `{"Fixed":N}` or `{"Exponential":{"base":N,"max":N}}`.
#[derive(Debug)]
pub struct WireBackoff {
    pub kind: Option<String>,
    pub delay: Option<u64>,
    pub max: Option<u64>,
    pub fixed: Option<u64>,
    pub exponential: Option<(u64, u64)>,
}

/// The entries of a strategy on the wire.
#[verifier::ext_equal]
pub struct WireBackoffView {
    pub kind: Option<Seq<char>>,
    pub delay: Option<u64>,
    pub max: Option<u64>,
    pub fixed: Option<u64>,
    pub exponential: Option<(u64, u64)>,
}

impl View for WireBackoff {
    type V = WireBackoffView;

    open spec fn view(&self) -> WireBackoffView {
        WireBackoffView {
            kind: match self.kind {
                Some(kind) => Some(kind@),
                None => None,
            },
            delay: self.delay,
            max: self.max,
            fixed: self.fixed,
            exponential: self.exponential,
        }
    }
}

/// Why entries are no strategy.
#[derive(Debug)]
pub enum WireError {
    MissingType,
    MissingDelay,
    UnknownType(String),
}

/// An error with its text as a character sequence.
#[verifier::ext_equal]
pub enum WireErrorView {
    MissingType,
    MissingDelay,
    UnknownType(Seq<char>),
}

impl View for WireError {
    type V = WireErrorView;

    open spec fn view(&self) -> WireErrorView {
        match *self {
            WireError::MissingType => WireErrorView::MissingType,
            WireError::MissingDelay => WireErrorView::MissingDelay,
            WireError::UnknownType(kind) => WireErrorView::UnknownType(kind@),
        }
    }
}

impl WireBackoffView {
    /// The strategy that the entries stand for. A type comes before a variant. Beside a type, an
    /// absent `max` is no limit, a `max` beside `fixed` is ignored, and any other type is unknown.
    pub open spec fn strategy(self) -> Result<BackoffStrategy, WireErrorView> {
        match self.kind {
            Some(kind) => match self.delay {
                Some(delay) => if kind == "fixed"@ {
                    Ok(BackoffStrategy::Fixed(delay))
                } else if kind == "exponential"@ {
                    Ok(
                        BackoffStrategy::Exponential {
                            base: delay,
                            max: match self.max {
                                Some(max) => max,
                                None => u64::MAX,
                            },
                        },
                    )
                } else {
                    Err(WireErrorView::UnknownType(kind))
                },
                None => Err(WireErrorView::MissingDelay),
            },
            None => match (self.fixed, self.exponential) {
                (Some(ms), _) => Ok(BackoffStrategy::Fixed(ms)),
                (None, Some((base, max))) => Ok(BackoffStrategy::Exponential { base, max }),
                (None, None) => Err(WireErrorView::MissingType),
            },
        }
    }
}

/// A strategy or an error, as views.
pub open spec fn wire_result(r: Result<BackoffStrategy, WireError>) -> Result<
    BackoffStrategy,
    WireErrorView,
> {
    match r {
        Ok(strategy) => Ok(strategy),
        Err(e) => Err(e@),
    }
}

impl BackoffStrategy {
    /// The entries that stand for a strategy on the wire.
    pub open spec fn wire(self) -> WireBackoffView {
        match self {
            BackoffStrategy::Fixed(delay) => WireBackoffView {
                kind: Some("fixed"@),
                delay: Some(delay),
                max: None,
                fixed: None,
                exponential: None,
            },
            BackoffStrategy::Exponential { base, max } => WireBackoffView {
                kind: Some("exponential"@),
                delay: Some(base),
                max: Some(max),
                fixed: None,
                exponential: None,
            },
        }
    }

    pub fn to_wire(&self) -> (wire: WireBackoff)
        ensures
            wire@ == self.wire(),
    {
        match self {
            BackoffStrategy::Fixed(delay) => WireBackoff {
                kind: Some("fixed".to_string()),
                delay: Some(*delay),
                max: None,
                fixed: None,
                exponential: None,
            },
            BackoffStrategy::Exponential { base, max } => WireBackoff {
                kind: Some("exponential".to_string()),
                delay: Some(*base),
                max: Some(*max),
                fixed: None,
                exponential: None,
            },
        }
    }

    /// Reads a strategy from its entries.
    pub fn from_wire(wire: WireBackoff) -> (r: Result<BackoffStrategy, WireError>)
        ensures
            wire_result(r) == wire@.strategy(),
    {
        match wire.kind {
            Some(kind) => {
                let delay: u64 = match wire.delay {
                    Some(delay) => delay,
                    None => return Err(WireError::MissingDelay),
                };
                if same_text(kind.as_str(), "fixed") {
                    Ok(BackoffStrategy::Fixed(delay))
                } else if same_text(kind.as_str(), "exponential") {
                    Ok(
                        BackoffStrategy::Exponential {
                            base: delay,
                            max: match wire.max {
                                Some(max) => max,
                                None => u64::MAX,
                            },
                        },
                    )
                } else {
                    Err(WireError::UnknownType(kind))
                }
            },
            None => {
                if let Some(ms) = wire.fixed {
                    Ok(BackoffStrategy::Fixed(ms))
                } else if let Some((base, max)) = wire.exponential {
                    Ok(BackoffStrategy::Exponential { base, max })
                } else {
                    Err(WireError::MissingType)
                }
            },
        }
    }

    /// A strategy as a MessagePack map of its entries on the wire.
    pub open spec fn packed(self) -> Seq<u8> {
        match self {
            BackoffStrategy::Fixed(delay) => map_head(2) + packed_str("type"@) + packed_str(
                "fixed"@,
            ) + packed_str("delay"@) + packed_uint(delay as nat),
            BackoffStrategy::Exponential { base, max } => map_head(3) + packed_str("type"@)
                + packed_str("exponential"@) + packed_str("delay"@) + packed_uint(base as nat)
                + packed_str("max"@) + packed_uint(max as nat),
        }
    }

    /// Appends the strategy to a MessagePack buffer.
    pub fn pack(&self, buf: &mut Vec<u8>)
        ensures
            final(buf)@ == old(buf)@ + self.packed(),
    {
        match self {
            BackoffStrategy::Fixed(delay) => {
                write_map_len(buf, 2);
                write_str(buf, "type");
                write_str(buf, "fixed");
                write_str(buf, "delay");
                write_uint(buf, *delay);
            },
            BackoffStrategy::Exponential { base, max } => {
                write_map_len(buf, 3);
                write_str(buf, "type");
                write_str(buf, "exponential");
                write_str(buf, "delay");
                write_uint(buf, *base);
                write_str(buf, "max");
                write_uint(buf, *max);
            },
        }
    }
}

/// What is written is read back: the wire form of a strategy stands for that strategy.
pub proof fn law_wire_round_trip(strategy: BackoffStrategy)
    ensures
        strategy.wire().strategy() == Ok::<BackoffStrategy, WireErrorView>(strategy),
{
    reveal_strlit("fixed");
    reveal_strlit("exponential");
    assert("fixed"@.len() != "exponential"@.len());
}

/// Grouping from the right instead of from the left, with one number.
proof fn lemma_regroup_one(start: Seq<u8>, n: Seq<u8>, rest: Seq<u8>)
    ensures
        start + n + rest == start + (n + rest),
{
    assert(start + n + rest =~= start + (n + rest));
}

/// Grouping from the right instead of from the left, with two numbers.
proof fn lemma_regroup_two(start: Seq<u8>, m: Seq<u8>, key: Seq<u8>, n: Seq<u8>, rest: Seq<u8>)
    ensures
        start + m + key + n + rest == start + (m + (key + (n + rest))),
{
    assert(start + m + key + n + rest =~= start + (m + (key + (n + rest))));
}

/// The first byte is the head of the map.
proof fn lemma_packed_first(strategy: BackoffStrategy)
    ensures
        strategy.packed().len() > 0,
        strategy.packed()[0] == match strategy {
            BackoffStrategy::Fixed(_) => 0x82u8,
            BackoffStrategy::Exponential { .. } => 0x83u8,
        },
{
}

/// Different strategies are packed differently, and end where they end.
pub proof fn law_packed_unambiguous(
    a: BackoffStrategy,
    b: BackoffStrategy,
    x: Seq<u8>,
    y: Seq<u8>,
)
    requires
        a.packed() + x == b.packed() + y,
    ensures
        a == b,
        x == y,
{
    lemma_packed_first(a);
    lemma_packed_first(b);
    assert(a.packed()[0] == (a.packed() + x)[0]);
    assert(b.packed()[0] == (b.packed() + y)[0]);
    match (a, b) {
        (BackoffStrategy::Fixed(m), BackoffStrategy::Fixed(n)) => {
            let start = map_head(2) + packed_str("type"@) + packed_str("fixed"@) + packed_str(
                "delay"@,
            );
            let (u, v) = (packed_uint(m as nat), packed_uint(n as nat));
            lemma_regroup_one(start, u, x);
            lemma_regroup_one(start, v, y);
            lemma_same_rest(start, u + x, v + y);
            law_uint_unambiguous(m as nat, n as nat, x, y);
        },
        (
            BackoffStrategy::Exponential { base: m, max: k },
            BackoffStrategy::Exponential { base: n, max: l },
        ) => {
            let start = map_head(3) + packed_str("type"@) + packed_str("exponential"@) + packed_str(
                "delay"@,
            );
            let key = packed_str("max"@);
            let (u, v) = (packed_uint(m as nat), packed_uint(n as nat));
            let (w, z) = (packed_uint(k as nat), packed_uint(l as nat));
            lemma_regroup_two(start, u, key, w, x);
            lemma_regroup_two(start, v, key, z, y);
            lemma_same_rest(start, u + (key + (w + x)), v + (key + (z + y)));
            law_uint_unambiguous(m as nat, n as nat, key + (w + x), key + (z + y));
            lemma_same_rest(key, w + x, z + y);
            law_uint_unambiguous(k as nat, l as nat, x, y);
        },
        _ => {},
    }
}

/// Under every strategy a later attempt waits at least as long as an earlier one.
pub proof fn law_delay_never_shrinks(strategy: BackoffStrategy, earlier: nat, later: nat)
    requires
        earlier <= later,
    ensures
        delay_after(strategy, earlier) <= delay_after(strategy, later),
{
    if let BackoffStrategy::Exponential { base, max } = strategy {
        lemma_scaled_pow2_monotone(base as nat, doublings(earlier), doublings(later));
    }
}

/// An exponential delay never exceeds `max`, starts at `base`, and doubles with each attempt
/// until it is capped.
pub proof fn law_exponential_doubles_up_to_max(base: u64, max: u64, attempt: nat)
    requires
        attempt >= 1,
    ensures
        ({
            let strategy = BackoffStrategy::Exponential { base, max };
            &&& delay_after(strategy, attempt) <= max
            &&& delay_after(strategy, 0) == delay_after(strategy, 1)
            &&& delay_after(strategy, 1) == min_int(base as int, max as int)
            &&& delay_after(strategy, attempt + 1) == min_int(
                2 * delay_after(strategy, attempt),
                max as int,
            )
        }),
{
    vstd::arithmetic::power2::lemma2_to64();
    assert(base * 1 == base);
    lemma_pow2_unfold(attempt);
    let p = pow2(doublings(attempt));
    assert(base * (2 * p) == 2 * (base * p)) by (nonlinear_arith);
}

/// A fixed delay is the same before every retry.
pub proof fn law_fixed_is_constant(ms: u64, a: nat, b: nat)
    ensures
        delay_after(BackoffStrategy::Fixed(ms), a) == delay_after(BackoffStrategy::Fixed(ms), b),
        delay_after(BackoffStrategy::Fixed(ms), a) == ms,
{
}

/// A packed strategy is the map of its entries on the wire: under `type` its kind, under `delay`
/// and `max` its own numbers.
pub proof fn law_packed_by_name(strategy: BackoffStrategy)
    ensures
        match strategy {
            BackoffStrategy::Fixed(ms) => strategy.packed() == packed_map(
                seq![
                    ("type"@, packed_str("fixed"@)),
                    ("delay"@, packed_uint(ms as nat)),
                ],
            ),
            BackoffStrategy::Exponential { base, max } => strategy.packed() == packed_map(
                seq![
                    ("type"@, packed_str("exponential"@)),
                    ("delay"@, packed_uint(base as nat)),
                    ("max"@, packed_uint(max as nat)),
                ],
            ),
        },
{
    let none = Seq::<(Seq<char>, Seq<u8>)>::empty();
    match strategy {
        BackoffStrategy::Fixed(ms) => {
            let head = map_head(2);
            let kind = Some(packed_str("fixed"@));
            let delay = Some(packed_uint(ms as nat));
            let one = with_entry(none, "type"@, kind);
            lemma_no_entries(head);
            lemma_with_entry(head, none, "type"@, kind);
            lemma_with_entry(head, one, "delay"@, delay);
            assert(with_entry(one, "delay"@, delay) =~= seq![
                ("type"@, packed_str("fixed"@)),
                ("delay"@, packed_uint(ms as nat)),
            ]);
        },
        BackoffStrategy::Exponential { base, max } => {
            let head = map_head(3);
            let kind = Some(packed_str("exponential"@));
            let delay = Some(packed_uint(base as nat));
            let limit = Some(packed_uint(max as nat));
            let one = with_entry(none, "type"@, kind);
            let two = with_entry(one, "delay"@, delay);
            lemma_no_entries(head);
            lemma_with_entry(head, none, "type"@, kind);
            lemma_with_entry(head, one, "delay"@, delay);
            lemma_with_entry(head, two, "max"@, limit);
            assert(with_entry(two, "max"@, limit) =~= seq![
                ("type"@, packed_str("exponential"@)),
                ("delay"@, packed_uint(base as nat)),
                ("max"@, packed_uint(max as nat)),
            ]);
        },
    }
}

/// What a strategy gives depends on its entries alone: beside a type the variants do not count,
/// a fixed delay has no maximum, and an exponential one without a maximum is as good as
/// unlimited.
pub proof fn law_wire_entries(
    wire: WireBackoff,
    r: Result<BackoffStrategy, WireError>,
    other: WireBackoff,
    s: Result<BackoffStrategy, WireError>,
)
    requires
        call_ensures(BackoffStrategy::from_wire, (wire,), r),
        call_ensures(BackoffStrategy::from_wire, (other,), s),
    ensures
        wire@.kind is Some && wire@.kind == other@.kind && wire.delay == other.delay && wire.max
            == other.max ==> wire_result(r) == wire_result(s),
        wire@.kind == Some("fixed"@) && wire.delay is Some ==> r == Ok::<
            BackoffStrategy,
            WireError,
        >(BackoffStrategy::Fixed(wire.delay->0)),
        wire@.kind == Some("exponential"@) && wire.delay is Some && wire.max is Some ==> r == Ok::<
            BackoffStrategy,
            WireError,
        >(BackoffStrategy::Exponential { base: wire.delay->0, max: wire.max->0 }),
        wire@.kind == Some("exponential"@) && wire.delay is Some && wire.max is None ==> r == Ok::<
            BackoffStrategy,
            WireError,
        >(BackoffStrategy::Exponential { base: wire.delay->0, max: u64::MAX }),
        wire@.kind is Some && wire.delay is None ==> wire_result(r) == Err::<
            BackoffStrategy,
            WireErrorView,
        >(WireErrorView::MissingDelay),
        wire@.kind is Some && wire@.kind != Some("fixed"@) && wire@.kind != Some("exponential"@)
            && wire.delay is Some ==> wire_result(r) == Err::<BackoffStrategy, WireErrorView>(
            WireErrorView::UnknownType(wire@.kind->0),
        ),
{
    reveal_strlit("fixed");
    reveal_strlit("exponential");
    assert("fixed"@.len() != "exponential"@.len());
}

/// Without a type, a variant with its values is read as that variant, and without either there is
/// no strategy.
pub proof fn law_wire_variants(wire: WireBackoff, r: Result<BackoffStrategy, WireError>)
    requires
        call_ensures(BackoffStrategy::from_wire, (wire,), r),
        wire@.kind is None,
    ensures
        wire.fixed matches Some(ms) ==> r == Ok::<BackoffStrategy, WireError>(
            BackoffStrategy::Fixed(ms),
        ),
        wire.exponential matches Some((base, max)) ==> wire.fixed is None ==> r == Ok::<
            BackoffStrategy,
            WireError,
        >(BackoffStrategy::Exponential { base, max }),
        wire.fixed is None && wire.exponential is None ==> wire_result(r) == Err::<
            BackoffStrategy,
            WireErrorView,
        >(WireErrorView::MissingType),
{
}

/// What one call writes, another reads back as the same strategy.
pub proof fn law_written_strategy_is_read(
    strategy: BackoffStrategy,
    wire: WireBackoff,
    r: Result<BackoffStrategy, WireError>,
)
    requires
        call_ensures(BackoffStrategy::to_wire, (&strategy,), wire),
        call_ensures(BackoffStrategy::from_wire, (wire,), r),
    ensures
        r == Ok::<BackoffStrategy, WireError>(strategy),
        wire.fixed is None,
        wire.exponential is None,
        strategy is Fixed ==> wire@.kind == Some("fixed"@) && wire.max is None,
        strategy is Exponential ==> wire@.kind == Some("exponential"@) && wire.max is Some,
{
    law_wire_round_trip(strategy);
}

/// The computed delay, in closed form: a fixed strategy gives its delay before every retry, an
/// exponential one its base doubled for each earlier attempt, but never more than its maximum.
pub proof fn law_computed_delay(strategy: BackoffStrategy, attempt: u32, delay: u64)
    requires
        call_ensures(compute_delay, (&strategy, attempt), delay),
    ensures
        match strategy {
            BackoffStrategy::Fixed(ms) => delay == ms,
            BackoffStrategy::Exponential { base, max } => {
                let earlier = if attempt == 0 {
                    0nat
                } else {
                    (attempt - 1) as nat
                };
                &&& base * pow2(earlier) <= max ==> delay == base * pow2(earlier)
                &&& base * pow2(earlier) > max ==> delay == max
            },
        },
{
}

} // verus!
