use vstd::prelude::*;
use crate::numeral::{
    dec_digits, is_ascii_digit, lemma_dec_digits_parse, parse_u64, parsed_u64, parses_as_u64,
    u64_to_dec,
};

verus! {

/// The six bytes of the literal unit prefix `bytes=`.
pub open spec fn range_unit_prefix() -> Seq<u8> {
    seq![98u8, 121u8, 116u8, 101u8, 115u8, 61u8]
}

/// Whether a header value begins with `bytes=`.
pub open spec fn has_range_unit_prefix(v: Seq<u8>) -> bool {
    v.len() >= 6 && v.take(6) == range_unit_prefix()
}

/// Index of the first `-` in `s`, if any.
pub open spec fn first_dash(s: Seq<u8>) -> Option<int>
    decreases s.len(),
{
    if s.len() == 0 {
        None
    } else if s[0] == 45 {
        Some(0int)
    } else {
        match first_dash(s.drop_first()) {
            None => None,
            Some(i) => Some(i + 1),
        }
    }
}

/// The `<start>` field: the bytes between the unit prefix and the first `-`.
pub open spec fn start_field(v: Seq<u8>) -> Seq<u8>
    recommends
        has_range_unit_prefix(v),
        first_dash(v.skip(6)) is Some,
{
    v.skip(6).take(first_dash(v.skip(6)).unwrap())
}

/// When the rewriter acts: the value reads `bytes=<start>-...`, `<start>`
/// parses as a `u64`, and the capped end `start + chunk` fits in a `u64`.
pub open spec fn rewrite_applies(v: Seq<u8>, chunk: u64) -> bool {
    &&& has_range_unit_prefix(v)
    &&& first_dash(v.skip(6)) is Some
    &&& parses_as_u64(start_field(v))
    &&& parsed_u64(start_field(v)) + chunk <= u64::MAX
}

/// The replacement value `bytes=<start>-<start + chunk>`, discarding
/// whatever stood after the first `-`.
pub open spec fn rewritten(v: Seq<u8>, chunk: u64) -> Seq<u8>
    recommends
        rewrite_applies(v, chunk),
{
    let start = parsed_u64(start_field(v));
    range_unit_prefix() + dec_digits(start) + seq![45u8] + dec_digits((start + chunk) as nat)
}

/// A dash found at `i` with none before it is the first dash.
proof fn lemma_first_dash_at(s: Seq<u8>, i: int)
    requires
        0 <= i < s.len(),
        s[i] == 45,
        forall|j: int| 0 <= j < i ==> s[j] != 45,
    ensures
        first_dash(s) == Some(i),
    decreases i,
{
    if i > 0 {
        lemma_first_dash_at(s.drop_first(), i - 1);
    }
}

/// A run without any dash has no first dash.
proof fn lemma_first_dash_absent(s: Seq<u8>)
    requires
        forall|j: int| 0 <= j < s.len() ==> s[j] != 45,
    ensures
        first_dash(s) is None,
    decreases s.len(),
{
    if s.len() > 0 {
        lemma_first_dash_absent(s.drop_first());
    }
}

/// Text accepted by the `u64` parser holds only `+` and digits, never a dash.
pub proof fn lemma_parsed_text_has_no_dash(s: Seq<u8>)
    requires
        parses_as_u64(s),
    ensures
        forall|j: int| 0 <= j < s.len() ==> s[j] != 45,
{
    assert forall|j: int| 0 <= j < s.len() implies s[j] != 45 by {
        if s[0] == 43 {
            if j > 0 {
                assert(s.drop_first()[j - 1] == s[j]);
                assert(is_ascii_digit(s.drop_first()[j - 1]));
            }
        } else {
            assert(is_ascii_digit(s[j]));
        }
    }
}

/// Finds the first `-` at or after position `from`.
fn find_dash_from(v: &[u8], from: usize) -> (r: Option<usize>)
    requires
        from <= v@.len(),
    ensures
        match r {
            Some(i) => from <= i < v@.len() && first_dash(v@.skip(from as int)) == Some(
                i - from,
            ),
            None => first_dash(v@.skip(from as int)) is None,
        },
{
    let n = v.len();
    let mut i: usize = from;
    while i < n
        invariant
            from <= i <= n,
            n == v@.len(),
            forall|j: int| from <= j < i ==> v@[j] != 45,
        decreases n - i,
    {
        if v[i] == 45 {
            proof {
                let s = v@.skip(from as int);
                assert(s[i - from] == v@[i as int]);
                assert forall|j: int| 0 <= j < i - from implies s[j] != 45 by {
                    assert(s[j] == v@[j + from]);
                }
                lemma_first_dash_at(s, i - from);
            }
            return Some(i);
        }
        i = i + 1;
    }
    proof {
        let s = v@.skip(from as int);
        assert forall|j: int| 0 <= j < s.len() implies s[j] != 45 by {
            assert(s[j] == v@[j + from]);
        }
        lemma_first_dash_absent(s);
    }
    None
}

/// The deterministic `Range` header rewriter. For a value of the form
/// `bytes=<start>-...` whose `<start>` parses as a `u64` and whose capped end
/// fits in a `u64`, it returns `bytes=<start>-<start + chunk_size>`;
/// for every other value it returns `None`, meaning "no rewrite".
pub fn rewrite(value: &[u8], chunk_size: u64) -> (r: Option<Vec<u8>>)
    ensures
        match r {
            Some(w) => rewrite_applies(value@, chunk_size) && w@ == rewritten(
                value@,
                chunk_size,
            ),
            None => !rewrite_applies(value@, chunk_size),
        },
{
    if value.len() < 6 {
        return None;
    }
    if !(value[0] == 98 && value[1] == 121 && value[2] == 116 && value[3] == 101 && value[4]
        == 115 && value[5] == 61) {
        proof {
            assert(value@.take(6) != range_unit_prefix()) by {
                if value@.take(6) == range_unit_prefix() {
                    assert(value@[0] == value@.take(6)[0]);
                    assert(value@[1] == value@.take(6)[1]);
                    assert(value@[2] == value@.take(6)[2]);
                    assert(value@[3] == value@.take(6)[3]);
                    assert(value@[4] == value@.take(6)[4]);
                    assert(value@[5] == value@.take(6)[5]);
                }
            }
        }
        return None;
    }
    proof {
        assert(value@.take(6) =~= range_unit_prefix());
    }
    let dash = match find_dash_from(value, 6) {
        None => {
            return None;
        },
        Some(d) => d,
    };
    let start_bytes = vstd::slice::slice_subrange(value, 6, dash);
    proof {
        assert(start_bytes@ =~= start_field(value@));
    }
    let start = match parse_u64(start_bytes) {
        None => {
            return None;
        },
        Some(x) => x,
    };
    if start > u64::MAX - chunk_size {
        return None;
    }
    let end = start + chunk_size;
    let mut out: Vec<u8> = Vec::new();
    out.push(98);
    out.push(121);
    out.push(116);
    out.push(101);
    out.push(115);
    out.push(61);
    let mut start_digits = u64_to_dec(start);
    out.append(&mut start_digits);
    out.push(45);
    let mut end_digits = u64_to_dec(end);
    out.append(&mut end_digits);
    proof {
        assert(out@ =~= rewritten(value@, chunk_size));
    }
    Some(out)
}

/// A value that does not begin with `bytes=` is never rewritten: together
/// with the contract of `rewrite`, the request passes through unmodified.
pub proof fn lemma_no_prefix_no_rewrite(v: Seq<u8>, chunk: u64)
    requires
        !has_range_unit_prefix(v),
    ensures
        !rewrite_applies(v, chunk),
{
}

/// For every value `bytes=<start>-<rest>`, whatever `<rest>` holds, the
/// rewriter acts and produces exactly `bytes=<start>-<start + chunk>`,
/// provided `<start>` parses as a `u64` and the capped end fits in a `u64`.
pub proof fn lemma_rewrite_exact(start_text: Seq<u8>, rest: Seq<u8>, chunk: u64)
    requires
        parses_as_u64(start_text),
        parsed_u64(start_text) + chunk <= u64::MAX,
    ensures
        rewrite_applies(range_unit_prefix() + start_text + seq![45u8] + rest, chunk),
        rewritten(range_unit_prefix() + start_text + seq![45u8] + rest, chunk)
            == range_unit_prefix() + dec_digits(parsed_u64(start_text)) + seq![45u8]
            + dec_digits((parsed_u64(start_text) + chunk) as nat),
{
    let v = range_unit_prefix() + start_text + seq![45u8] + rest;
    assert(v.take(6) =~= range_unit_prefix());
    let tail = v.skip(6);
    assert(tail =~= start_text + seq![45u8] + rest);
    lemma_parsed_text_has_no_dash(start_text);
    assert(tail[start_text.len() as int] == 45);
    assert forall|j: int| 0 <= j < start_text.len() implies tail[j] != 45 by {
        assert(tail[j] == start_text[j]);
    }
    lemma_first_dash_at(tail, start_text.len() as int);
    assert(start_field(v) =~= start_text);
}

/// A start field that does not parse as a `u64` is never rewritten.
/// `start_text` is the whole field before the first `-`, so it holds no dash.
pub proof fn lemma_bad_start_no_rewrite(start_text: Seq<u8>, rest: Seq<u8>, chunk: u64)
    requires
        !parses_as_u64(start_text),
        forall|j: int| 0 <= j < start_text.len() ==> start_text[j] != 45,
    ensures
        !rewrite_applies(range_unit_prefix() + start_text + seq![45u8] + rest, chunk),
{
    let v = range_unit_prefix() + start_text + seq![45u8] + rest;
    let tail = v.skip(6);
    assert(tail =~= start_text + seq![45u8] + rest);
    assert(tail[start_text.len() as int] == 45);
    assert forall|j: int| 0 <= j < start_text.len() implies tail[j] != 45 by {
        assert(tail[j] == start_text[j]);
    }
    lemma_first_dash_at(tail, start_text.len() as int);
    assert(start_field(v) =~= start_text);
}

/// Re-applying the rewriter to its own output with the same chunk size is a
/// no-op in value: the output is a fixed point.
pub proof fn lemma_rewrite_fixed_point(v: Seq<u8>, chunk: u64)
    requires
        rewrite_applies(v, chunk),
    ensures
        rewrite_applies(rewritten(v, chunk), chunk),
        rewritten(rewritten(v, chunk), chunk) == rewritten(v, chunk),
{
    let start = parsed_u64(start_field(v));
    lemma_dec_digits_parse(start);
    lemma_rewrite_exact(dec_digits(start), dec_digits((start + chunk) as nat), chunk);
    assert(rewritten(v, chunk) == range_unit_prefix() + dec_digits(start) + seq![45u8]
        + dec_digits((start + chunk) as nat));
}

} // verus!
