//! Command-line value rules of the engine binary: flag lookup, unsigned
//! decimal parsing and the budget split between dense and expert caches.
use vstd::prelude::*;
use crate::text::{chars_of, str_eq, string_of, trim_ws, trimmed};
use vstd::string::StrSliceExecFns;
use crate::manifest::{ExpertKey, ExpertLocation};

verus! {

/// The first position of `flag` among `args`.
pub open spec fn flag_position(args: Seq<String>, flag: Seq<char>) -> Option<int>
    decreases args.len(),
{
    if args.len() == 0 {
        None
    } else {
        match flag_position(args.drop_last(), flag) {
            Some(i) => Some(i),
            None => if args.last()@ == flag { Some(args.len() - 1) } else { None },
        }
    }
}

/// The argument after the first `flag`, if there is one.
pub open spec fn flag_value(args: Seq<String>, flag: Seq<char>) -> Option<Seq<char>> {
    match flag_position(args, flag) {
        Some(i) => if i + 1 < args.len() { Some(args[i + 1]@) } else { None },
        None => None,
    }
}

proof fn lemma_flag_position_extend(args: Seq<String>, flag: Seq<char>, i: int)
    requires
        0 <= i < args.len(),
        forall|k: int| 0 <= k < i ==> (#[trigger] args[k])@ != flag,
    ensures
        flag_position(args.take(i + 1), flag) == (if args[i]@ == flag { Some(i) } else { None }),
        args[i]@ != flag ==> flag_position(args.take(i + 1), flag) is None,
    decreases i,
{
    let t = args.take(i + 1);
    assert(t.drop_last() =~= args.take(i));
    if i > 0 {
        lemma_flag_position_extend(args, flag, i - 1);
        assert(args[i - 1]@ != flag);
        assert(args.take(i - 1 + 1) =~= args.take(i));
    } else {
        assert(args.take(0) =~= Seq::<String>::empty());
    }
}

proof fn lemma_flag_position_prefix(args: Seq<String>, flag: Seq<char>, j: int)
    requires
        0 <= j <= args.len(),
        flag_position(args.take(j), flag) is Some,
    ensures
        flag_position(args, flag) == flag_position(args.take(j), flag),
    decreases args.len() - j,
{
    if j < args.len() {
        let t = args.take(j + 1);
        assert(t.drop_last() =~= args.take(j));
        lemma_flag_position_prefix(args, flag, j + 1);
    } else {
        assert(args.take(j) =~= args);
    }
}

/// The argument that follows `flag`.
pub fn value(args: &Vec<String>, flag: &str) -> (r: Option<String>)
    ensures
        match r {
            Some(v) => flag_value(args@, flag@) == Some(v@),
            None => flag_value(args@, flag@) is None,
        },
{
    let mut i: usize = 0;
    assert(args@.take(0) =~= Seq::<String>::empty());
    while i < args.len()
        invariant
            i <= args@.len(),
            forall|k: int| 0 <= k < i ==> (#[trigger] args@[k])@ != flag@,
            flag_position(args@.take(i as int), flag@) is None,
        decreases args@.len() - i,
    {
        proof { lemma_flag_position_extend(args@, flag@, i as int); }
        if str_eq(args[i].as_str(), flag) {
            proof { lemma_flag_position_prefix(args@, flag@, i + 1); }
            if i + 1 < args.len() {
                return Some(args[i + 1].clone());
            }
            return None;
        }
        i += 1;
    }
    assert(args@.take(i as int) =~= args@);
    None
}

pub open spec fn is_digit(c: char) -> bool {
    '0' <= c && c <= '9'
}

/// The number written by decimal digits `d`.
pub open spec fn digits_value(d: Seq<char>) -> nat
    decreases d.len(),
{
    if d.len() == 0 {
        0
    } else {
        digits_value(d.drop_last()) * 10 + (d.last() as nat - '0' as nat) as nat
    }
}

/// The digits of a `u64` literal: the text without one leading `+`.
pub open spec fn unsigned_digits(s: Seq<char>) -> Seq<char> {
    if s.len() > 0 && s[0] == '+' { s.drop_first() } else { s }
}

/// What `str::parse::<u64>` gives: at least one decimal digit after an
/// optional `+`, and a value inside the 64-bit range.
pub open spec fn parse_u64(s: Seq<char>) -> Option<u64> {
    let d = unsigned_digits(s);
    if d.len() > 0 && (forall|i: int| 0 <= i < d.len() ==> is_digit(#[trigger] d[i])) && digits_value(d) <= u64::MAX {
        Some(digits_value(d) as u64)
    } else {
        None
    }
}

proof fn lemma_digits_monotone(d: Seq<char>, i: int)
    requires
        0 <= i <= d.len(),
        forall|k: int| 0 <= k < d.len() ==> is_digit(#[trigger] d[k]),
    ensures
        digits_value(d.take(i)) <= digits_value(d),
    decreases d.len() - i,
{
    if i < d.len() {
        let t = d.take(i + 1);
        assert(t.drop_last() =~= d.take(i));
        assert(is_digit(d[i]));
        lemma_digits_monotone(d, i + 1);
    } else {
        assert(d.take(i) =~= d);
    }
}

/// Parses an unsigned 64-bit decimal integer as `str::parse::<u64>` does.
pub fn parse_u64_str(s: &str) -> (r: Option<u64>)
    ensures
        r == parse_u64(s@),
{
    let cs = chars_of(s);
    let start: usize = if cs.len() > 0 && cs[0] == '+' { 1 } else { 0 };
    let ghost d = unsigned_digits(s@);
    assert(d =~= s@.skip(start as int));
    if start >= cs.len() {
        return None;
    }
    let mut value: u64 = 0;
    let mut i: usize = start;
    while i < cs.len()
        invariant
            cs@ == s@,
            start <= i <= cs@.len(),
            d == s@.skip(start as int),
            d == unsigned_digits(s@),
            forall|k: int| 0 <= k < i - start ==> is_digit(#[trigger] d[k]),
            value as nat == digits_value(d.take(i - start)),
        decreases cs@.len() - i,
    {
        let c = cs[i];
        assert(d[i - start] == c);
        if !('0' <= c && c <= '9') {
            assert(!is_digit(d[i - start]));
            return None;
        }
        let digit = (c as u32 - '0' as u32) as u64;
        let ghost t = d.take(i - start + 1);
        assert(t.drop_last() =~= d.take(i - start));
        let next = match value.checked_mul(10) {
            Some(x) => match x.checked_add(digit) {
                Some(y) => y,
                None => {
                    proof {
                        if forall|k: int| 0 <= k < d.len() ==> is_digit(#[trigger] d[k]) {
                            lemma_digits_monotone(d, i - start + 1);
                        }
                    }
                    return None;
                },
            },
            None => {
                proof {
                    if forall|k: int| 0 <= k < d.len() ==> is_digit(#[trigger] d[k]) {
                        lemma_digits_monotone(d, i - start + 1);
                    }
                }
                return None;
            },
        };
        value = next;
        i += 1;
    }
    assert(d.take(i - start) =~= d);
    Some(value)
}

/// The value of `flag` parsed as an unsigned integer, or `default` when the
/// flag is absent.
pub fn number(args: &Vec<String>, flag: &str, default: u64) -> (r: Result<u64, String>)
    ensures
        match flag_value(args@, flag@) {
            None => r == Ok::<u64, String>(default),
            Some(raw) => match parse_u64(raw) {
                Some(v) => r == Ok::<u64, String>(v),
                None => r is Err,
            },
        },
{
    match value(args, flag) {
        Some(raw) => match parse_u64_str(raw.as_str()) {
            Some(v) => Ok(v),
            None => {
                let mut m = string_of(flag);
                crate::text::push_str(&mut m, " must be a non-negative integer");
                Err(m)
            },
        },
        None => Ok(default),
    }
}

pub const MIB: u64 = 1024 * 1024;

/// The value of `flag`, in mebibytes, as bytes.
pub fn optional_mib(args: &Vec<String>, flag: &str) -> (r: Result<Option<u64>, String>)
    ensures
        match flag_value(args@, flag@) {
            None => r == Ok::<Option<u64>, String>(None),
            Some(raw) => match parse_u64(raw) {
                Some(v) => if v * MIB <= u64::MAX {
                    r == Ok::<Option<u64>, String>(Some((v * MIB) as u64))
                } else {
                    r is Err
                },
                None => r is Err,
            },
        },
{
    match value(args, flag) {
        None => Ok(None),
        Some(raw) => match parse_u64_str(raw.as_str()) {
            None => {
                let mut m = string_of(flag);
                crate::text::push_str(&mut m, " must be a non-negative integer");
                Err(m)
            },
            Some(v) => match v.checked_mul(MIB) {
                Some(bytes) => Ok(Some(bytes)),
                None => {
                    let mut m = string_of(flag);
                    crate::text::push_str(&mut m, " is too large");
                    Err(m)
                },
            },
        },
    }
}

pub open spec fn sat_sum(a: u64, b: u64) -> int {
    if a + b <= u64::MAX { a + b } else { u64::MAX as int }
}

/// Splits `total` cache bytes between the dense and expert requests: both
/// as requested when their (saturating) sum fits, else in proportion to the
/// requests, the expert share taking what the dense share leaves.
pub open spec fn split_spec(total: u64, dense: u64, expert: u64) -> (u64, u64) {
    let requested = sat_sum(dense, expert);
    if requested <= total {
        (dense, expert)
    } else {
        let d = (total as int * dense as int) / requested;
        (d as u64, (total - d) as u64)
    }
}

pub fn allocate_cache(total: u64, requested_dense: u64, requested_expert: u64) -> (r: (u64, u64))
    ensures
        r == split_spec(total, requested_dense, requested_expert),
{
    split_budget(total, requested_dense, requested_expert)
}

pub fn split_budget(total: u64, dense: u64, expert: u64) -> (r: (u64, u64))
    ensures
        r == split_spec(total, dense, expert),
{
    let requested = dense.saturating_add(expert);
    if requested <= total {
        return (dense, expert);
    }
    if requested == 0 {
        return (0, 0);
    }
    let x = total as u128;
    let y = dense as u128;
    assert(x * y <= 0xFFFF_FFFF_FFFF_FFFFu128 * 0xFFFF_FFFF_FFFF_FFFFu128) by (nonlinear_arith)
        requires
            x <= 0xFFFF_FFFF_FFFF_FFFFu128,
            y <= 0xFFFF_FFFF_FFFF_FFFFu128,
    ;
    let product = x * y;
    let d128 = product / (requested as u128);
    assert(d128 <= total) by (nonlinear_arith)
        requires
            d128 == product / (requested as u128),
            product == total as int * dense as int,
            dense <= requested,
            requested > 0,
    ;
    let d = d128 as u64;
    (d, total - d)
}

/// The split never hands out more than `total`, and neither share exceeds
/// its request, unless the requests overflow 64 bits while `total` is the
/// largest 64-bit value.
pub proof fn lemma_split_within_total(total: u64, dense: u64, expert: u64)
    requires
        dense + expert <= u64::MAX || total < u64::MAX,
    ensures
        split_spec(total, dense, expert).0 + split_spec(total, dense, expert).1 <= total,
        split_spec(total, dense, expert).0 <= dense,
        split_spec(total, dense, expert).1 <= total,
{
    let requested = sat_sum(dense, expert);
    if requested > total {
        assert((total as int * dense as int) / requested <= total as int) by (nonlinear_arith)
            requires
                dense <= requested,
                requested > 0,
                total >= 0,
        ;
        assert((total as int * dense as int) / requested <= dense as int) by (nonlinear_arith)
            requires
                total < requested,
                requested > 0,
                dense >= 0,
        ;
    }
}

/// Position of the first expert of layer `layer` in `es`, or -1.
pub open spec fn first_index(es: Seq<ExpertLocation>, layer: u32) -> int
    decreases es.len(),
{
    if es.len() == 0 {
        -1
    } else if es[0].layer == layer {
        0
    } else {
        let r = first_index(es.drop_first(), layer);
        if r < 0 { -1 } else { r + 1 }
    }
}

/// Position of the last expert of layer `layer` in `es`, or -1.
pub open spec fn last_index(es: Seq<ExpertLocation>, layer: u32) -> int
    decreases es.len(),
{
    if es.len() == 0 {
        -1
    } else if es.last().layer == layer {
        es.len() - 1
    } else {
        last_index(es.drop_last(), layer)
    }
}

pub open spec fn key_of(e: ExpertLocation) -> ExpertKey {
    ExpertKey { layer: e.layer, expert: e.expert }
}

/// The experts a quick check reads of one layer: its first listed expert and,
/// when it is another key, its last.
pub open spec fn layer_sample(es: Seq<ExpertLocation>, layer: u32) -> Seq<ExpertKey> {
    let f = first_index(es, layer);
    let t = last_index(es, layer);
    if f < 0 {
        Seq::empty()
    } else if key_of(es[t]) != key_of(es[f]) {
        seq![key_of(es[f]), key_of(es[t])]
    } else {
        seq![key_of(es[f])]
    }
}

/// The quick-check sample of layers `0 .. layers`, in layer order.
pub open spec fn sample_spec(es: Seq<ExpertLocation>, layers: nat) -> Seq<ExpertKey>
    decreases layers,
{
    if layers == 0 {
        Seq::empty()
    } else {
        sample_spec(es, (layers - 1) as nat) + layer_sample(es, (layers - 1) as u32)
    }
}

proof fn lemma_first_index_skip(es: Seq<ExpertLocation>, layer: u32, i: int)
    requires
        0 <= i <= es.len(),
        forall|j: int| 0 <= j < i ==> es[j].layer != layer,
    ensures
        first_index(es, layer) == (if first_index(es.skip(i), layer) < 0 { -1 } else { first_index(es.skip(i), layer) + i }),
        -1 <= first_index(es, layer) < es.len(),
        first_index(es, layer) >= 0 ==> es[first_index(es, layer)].layer == layer,
    decreases i,
{
    lemma_first_index_range(es, layer);
    if i == 0 {
        assert(es.skip(0) =~= es);
    } else {
        let rest = es.drop_first();
        assert forall|j: int| 0 <= j < i - 1 implies rest[j].layer != layer by {
            assert(rest[j] == es[j + 1]);
        }
        lemma_first_index_skip(rest, layer, i - 1);
        assert(rest.skip(i - 1) =~= es.skip(i));
    }
}

proof fn lemma_first_index_range(es: Seq<ExpertLocation>, layer: u32)
    ensures
        -1 <= first_index(es, layer) < es.len(),
        first_index(es, layer) >= 0 ==> es[first_index(es, layer)].layer == layer,
    decreases es.len(),
{
    if es.len() > 0 && es[0].layer != layer {
        lemma_first_index_range(es.drop_first(), layer);
    }
}

proof fn lemma_last_index_range(es: Seq<ExpertLocation>, layer: u32)
    ensures
        -1 <= last_index(es, layer) < es.len(),
        last_index(es, layer) >= 0 ==> es[last_index(es, layer)].layer == layer,
        last_index(es, layer) < 0 ==> forall|j: int| 0 <= j < es.len() ==> es[j].layer != layer,
        first_index(es, layer) < 0 <==> last_index(es, layer) < 0,
    decreases es.len(),
{
    if es.len() > 0 {
        lemma_last_index_range(es.drop_last(), layer);
        lemma_first_index_range(es, layer);
        if es.last().layer != layer {
            assert forall|j: int| 0 <= j < es.len() - 1 implies es.drop_last()[j] == es[j] by {}
            if first_index(es, layer) >= 0 {
                let f = first_index(es, layer);
                if f < es.len() - 1 {
                    assert(es.drop_last()[f].layer == layer);
                }
            }
            if last_index(es.drop_last(), layer) >= 0 {
                // a match among the earlier entries means a first match exists
                let t = last_index(es.drop_last(), layer);
                lemma_first_index_none(es, layer, t);
            }
        } else if first_index(es, layer) < 0 {
            lemma_first_index_none(es, layer, es.len() - 1);
        }
    }
}

proof fn lemma_first_index_none(es: Seq<ExpertLocation>, layer: u32, t: int)
    requires
        0 <= t < es.len(),
        es[t].layer == layer,
    ensures
        first_index(es, layer) >= 0,
    decreases es.len(),
{
    if es[0].layer != layer {
        lemma_first_index_none(es.drop_first(), layer, t - 1);
    }
}

fn find_first(es: &Vec<ExpertLocation>, layer: u32) -> (r: Option<usize>)
    ensures
        match r {
            Some(i) => i as int == first_index(es@, layer),
            None => first_index(es@, layer) < 0,
        },
{
    let mut i: usize = 0;
    while i < es.len()
        invariant
            i <= es@.len(),
            forall|j: int| 0 <= j < i ==> es@[j].layer != layer,
        decreases es@.len() - i,
    {
        if es[i].layer == layer {
            proof {
                lemma_first_index_skip(es@, layer, i as int);
                assert(es@.skip(i as int)[0] == es@[i as int]);
            }
            return Some(i);
        }
        i += 1;
    }
    proof {
        lemma_first_index_skip(es@, layer, i as int);
        assert(es@.skip(i as int) =~= Seq::<ExpertLocation>::empty());
    }
    None
}

fn find_last(es: &Vec<ExpertLocation>, layer: u32) -> (r: Option<usize>)
    ensures
        match r {
            Some(i) => i as int == last_index(es@, layer),
            None => last_index(es@, layer) < 0,
        },
{
    let mut i: usize = es.len();
    assert(es@.take(i as int) =~= es@);
    while i > 0
        invariant
            i <= es@.len(),
            last_index(es@, layer) == last_index(es@.take(i as int), layer),
        decreases i,
    {
        let ghost t = es@.take(i as int);
        assert(t.drop_last() =~= es@.take(i - 1));
        if es[i - 1].layer == layer {
            return Some(i - 1);
        }
        i -= 1;
    }
    None
}

/// The experts the quick storage check reads: per layer `0 .. layers`, the
/// first listed expert of the layer and, when it is another key, the last.
pub fn sampled_expert_keys(es: &Vec<ExpertLocation>, layers: u32) -> (out: Vec<ExpertKey>)
    ensures
        out@ == sample_spec(es@, layers as nat),
{
    let mut out: Vec<ExpertKey> = Vec::new();
    let mut layer: u32 = 0;
    while layer < layers
        invariant
            layer <= layers,
            out@ == sample_spec(es@, layer as nat),
        decreases layers - layer,
    {
        let ghost before = out@;
        proof {
            lemma_first_index_range(es@, layer);
            lemma_last_index_range(es@, layer);
        }
        match find_first(es, layer) {
            Some(f) => {
                let first = ExpertKey::new(es[f].layer, es[f].expert);
                out.push(first);
                match find_last(es, layer) {
                    Some(t) => {
                        let last = ExpertKey::new(es[t].layer, es[t].expert);
                        if !(last.layer == first.layer && last.expert == first.expert) {
                            out.push(last);
                        }
                    },
                    None => {},
                }
            },
            None => {},
        }
        assert(out@ =~= before + layer_sample(es@, layer));
        layer += 1;
    }
    out
}

/// The pieces of `s` between semicolons, in order (`str::split(';')`).
pub open spec fn split_pieces(s: Seq<char>) -> Seq<Seq<char>>
    decreases s.len(),
{
    if s.len() == 0 {
        seq![Seq::empty()]
    } else {
        let r = split_pieces(s.drop_last());
        if s.last() == ';' {
            r.push(Seq::empty())
        } else {
            r.update(r.len() - 1, r.last().push(s.last()))
        }
    }
}

/// The trimmed pieces that hold more than whitespace, in order.
pub open spec fn nonblank_trimmed(pieces: Seq<Seq<char>>) -> Seq<Seq<char>>
    decreases pieces.len(),
{
    if pieces.len() == 0 {
        Seq::empty()
    } else {
        let r = nonblank_trimmed(pieces.drop_last());
        if trim_ws(pieces.last()).len() == 0 { r } else { r.push(trim_ws(pieces.last())) }
    }
}

/// The mirror roots of a `--mirror` value: its semicolon-separated paths,
/// trimmed, without the blank ones.
pub open spec fn mirror_roots_spec(s: Seq<char>) -> Seq<Seq<char>> {
    nonblank_trimmed(split_pieces(s))
}

proof fn lemma_split_nonempty(s: Seq<char>)
    ensures
        split_pieces(s).len() >= 1,
    decreases s.len(),
{
    if s.len() > 0 {
        lemma_split_nonempty(s.drop_last());
    }
}

/// The mirror roots listed in a `--mirror` value.
pub fn mirror_roots(raw: &str) -> (out: Vec<String>)
    ensures
        out@.map_values(|m: String| m@) == mirror_roots_spec(raw@),
{
    let cs = chars_of(raw);
    let mut out: Vec<String> = Vec::new();
    let ghost mut done: Seq<Seq<char>> = Seq::empty();
    let mut start: usize = 0;
    let mut i: usize = 0;
    assert(raw@.take(0) =~= Seq::<char>::empty());
    assert(split_pieces(raw@.take(0)) =~= seq![Seq::<char>::empty()]);
    assert(raw@.subrange(0, 0) =~= Seq::<char>::empty());
    while i < cs.len()
        invariant
            cs@ == raw@,
            start <= i <= cs@.len(),
            split_pieces(raw@.take(i as int)) == done.push(raw@.subrange(start as int, i as int)),
            out@.map_values(|m: String| m@) == nonblank_trimmed(done),
        decreases cs@.len() - i,
    {
        let ghost t = raw@.take(i + 1);
        assert(t.drop_last() =~= raw@.take(i as int));
        assert(t.last() == cs@[i as int]);
        if cs[i] == ';' {
            let piece = trimmed(raw.substring_char(start, i));
            proof {
                assert(nonblank_trimmed(done.push(raw@.subrange(start as int, i as int))).len() >= 0);
            }
            let ghost before = out@;
            if piece.unicode_len() > 0 {
                out.push(string_of(piece));
            }
            proof {
                let d2 = done.push(raw@.subrange(start as int, i as int));
                assert(d2.drop_last() =~= done);
                assert(out@.map_values(|m: String| m@) =~= nonblank_trimmed(d2)) by {
                    if piece@.len() > 0 {
                        assert(before.push(out@.last()) == out@);
                        assert(out@.map_values(|m: String| m@) =~= before.map_values(|m: String| m@).push(piece@));
                    }
                }
                done = d2;
                assert(raw@.subrange(i + 1, i + 1) =~= Seq::<char>::empty());
            }
            start = i + 1;
        } else {
            proof {
                let p = raw@.subrange(start as int, i as int);
                assert(raw@.subrange(start as int, i + 1) =~= p.push(cs@[i as int]));
                let r = done.push(p);
                assert(r.update(r.len() - 1, r.last().push(cs@[i as int])) =~= done.push(p.push(cs@[i as int])));
            }
        }
        i += 1;
    }
    assert(raw@.take(i as int) =~= raw@);
    let piece = trimmed(raw.substring_char(start, i));
    let ghost before = out@;
    if piece.unicode_len() > 0 {
        out.push(string_of(piece));
    }
    proof {
        let d2 = done.push(raw@.subrange(start as int, i as int));
        assert(d2.drop_last() =~= done);
        assert(out@.map_values(|m: String| m@) =~= nonblank_trimmed(d2)) by {
            if piece@.len() > 0 {
                assert(out@.map_values(|m: String| m@) =~= before.map_values(|m: String| m@).push(piece@));
            }
        }
    }
    out
}

} // verus!
