use vstd::prelude::*;

use crate::bytes::{signed_bytes, signed_le};
use crate::error::WavError;
use crate::sample::{
    decode_stored, encode_stored, in_format_range, is_int_format, widen, widen_sample, widens_to,
    Sample,
};
use crate::samples_by_channel::SamplesByChannel;
use crate::wave_header::{count_true, format_bytes, Channels, SampleFormat};

verus! {

/// The integer values of the slots of a frame.
pub open spec fn slot_values<T: Sample>(s: Seq<Option<T>>) -> Seq<Option<int>> {
    s.map_values(
        |o: Option<T>|
            match o {
                Some(v) => Some(v.spec_value()),
                None => None,
            },
    )
}

/// The values of the present channels among the first `n` slots, in canonical
/// order, each in the range of `src`; or the problem with the first present
/// channel that lacks a value or holds one out of range.
pub open spec fn gather(
    flags: Seq<bool>,
    vals: Seq<Option<int>>,
    src: SampleFormat,
    n: nat,
) -> Result<Seq<int>, WavError>
    decreases n,
{
    if n == 0 {
        Ok(Seq::empty())
    } else {
        match gather(flags, vals, src, (n - 1) as nat) {
            Err(e) => Err(e),
            Ok(s) => if !flags[n - 1] {
                Ok(s)
            } else {
                match vals[n - 1] {
                    None => Err(WavError::MissingChannel),
                    Some(v) => if in_format_range(v, src) {
                        Ok(s.push(v))
                    } else {
                        Err(WavError::InvalidSampleValue)
                    },
                }
            },
        }
    }
}

/// Once gathering reports a problem, it reports the same one over more slots.
pub proof fn lemma_gather_err_persists(
    flags: Seq<bool>,
    vals: Seq<Option<int>>,
    src: SampleFormat,
    n: nat,
    m: nat,
)
    requires
        n <= m,
        gather(flags, vals, src, n) is Err,
    ensures
        gather(flags, vals, src, m) == gather(flags, vals, src, n),
    decreases m,
{
    if m > n {
        lemma_gather_err_persists(flags, vals, src, n, (m - 1) as nat);
    }
}

/// The slots of a frame whose present channels hold `vals`, in canonical order.
pub open spec fn scatter(flags: Seq<bool>, vals: Seq<int>) -> Seq<Option<int>> {
    Seq::new(
        18,
        |i: int|
            if flags[i] {
                Some(vals[count_true(flags.subrange(0, i)) as int])
            } else {
                None
            },
    )
}

/// The bytes of values `vals` of format `src` once widened to format `dst`.
pub open spec fn encode_values(vals: Seq<int>, src: SampleFormat, dst: SampleFormat) -> Seq<u8>
    decreases vals.len(),
{
    if vals.len() == 0 {
        Seq::empty()
    } else {
        encode_values(vals.drop_last(), src, dst) + signed_bytes(
            widen(vals.last(), src, dst),
            format_bytes(dst),
        )
    }
}

/// The `count` stored values of format `f` at the start of `b`.
pub open spec fn decode_values(b: Seq<u8>, count: nat, f: SampleFormat) -> Seq<int> {
    Seq::new(count, |k: int| signed_le(b, k * format_bytes(f), format_bytes(f)))
}

/// The values `vals` of format `src` widened to format `dst`.
pub open spec fn widen_all(vals: Seq<int>, src: SampleFormat, dst: SampleFormat) -> Seq<int> {
    vals.map_values(|v: int| widen(v, src, dst))
}

/// The frame that the bytes `b` of a file of format `file` and channels `c` hold,
/// read as samples of format `target`.
pub open spec fn read_frame(c: Channels, b: Seq<u8>, file: SampleFormat, target: SampleFormat) -> Seq<
    Option<int>,
> {
    scatter(c.flags(), widen_all(decode_values(b, c.spec_count(), file), file, target))
}

/// The integer values of a vector of 32-bit samples.
pub open spec fn ints(v: Seq<i32>) -> Seq<int> {
    v.map_values(|x: i32| x as int)
}

/// The values that frame `slots` holds for the channels of `c`, in canonical order.
pub fn gather_values<T: Sample>(c: &Channels, slots: &[Option<T>; 18]) -> (r: Result<
    Vec<i32>,
    WavError,
>)
    ensures
        match r {
            Ok(v) => gather(c.flags(), slot_values(slots@), T::spec_format(), 18) == Ok::<
                Seq<int>,
                WavError,
            >(ints(v@)),
            Err(e) => gather(c.flags(), slot_values(slots@), T::spec_format(), 18) == Err::<
                Seq<int>,
                WavError,
            >(e),
        },
{
    let flags = c.to_array();
    let src = T::format();
    let mut out: Vec<i32> = Vec::new();
    let mut i: usize = 0;
    assert(ints(out@) =~= Seq::<int>::empty());
    while i < 18
        invariant
            i <= 18,
            flags@ == c.flags(),
            src == T::spec_format(),
            gather(c.flags(), slot_values(slots@), src, i as nat) == Ok::<Seq<int>, WavError>(
                ints(out@),
            ),
        decreases 18 - i,
    {
        if flags[i] {
            match slots[i] {
                None => {
                    proof {
                        let vals = slot_values(slots@);
                        lemma_gather_err_persists(c.flags(), vals, src, (i + 1) as nat, 18);
                    }
                    return Err(WavError::MissingChannel);
                },
                Some(sample) => {
                    let v = sample.to_i32();
                    let ok = match src {
                        SampleFormat::Int24 => -0x80_0000 <= v && v < 0x80_0000,
                        SampleFormat::Int16 => -0x8000 <= v && v < 0x8000,
                        SampleFormat::Int8 => -0x80 <= v && v < 0x80,
                        SampleFormat::Float => true,
                    };
                    if !ok {
                        proof {
                            let vals = slot_values(slots@);
                        lemma_gather_err_persists(c.flags(), vals, src, (i + 1) as nat, 18);
                        }
                        return Err(WavError::InvalidSampleValue);
                    }
                    let ghost before = out@;
                    out.push(v);
                    assert(ints(out@) =~= ints(before).push(v as int));
                },
            }
        }
        i = i + 1;
    }
    Ok(out)
}

/// The bytes of values `vals` of format `src`, widened to format `dst`.
pub fn encode_frame_values(vals: &Vec<i32>, src: SampleFormat, dst: SampleFormat) -> (r: Vec<u8>)
    requires
        forall|k: int| 0 <= k < vals@.len() ==> in_format_range(#[trigger] vals@[k] as int, src),
        widens_to(src, dst),
        is_int_format(dst),
    ensures
        r@ == encode_values(ints(vals@), src, dst),
{
    let mut out: Vec<u8> = Vec::new();
    let mut k: usize = 0;
    while k < vals.len()
        invariant
            k <= vals@.len(),
            forall|j: int| 0 <= j < vals@.len() ==> in_format_range(#[trigger] vals@[j] as int, src),
            widens_to(src, dst),
            is_int_format(dst),
            out@ == encode_values(ints(vals@).subrange(0, k as int), src, dst),
        decreases vals@.len() - k,
    {
        let v = widen_sample(vals[k], src, dst);
        encode_stored(&mut out, v, dst);
        assert(ints(vals@).subrange(0, k + 1).drop_last() =~= ints(vals@).subrange(0, k as int));
        k = k + 1;
    }
    assert(ints(vals@).subrange(0, vals@.len() as int) =~= ints(vals@));
    out
}

/// The `count` stored values of format `f` at the start of `b`.
pub fn decode_frame_values(b: &[u8], count: usize, f: SampleFormat) -> (r: Vec<i32>)
    requires
        count * format_bytes(f) <= b@.len(),
    ensures
        ints(r@) == decode_values(b@, count as nat, f),
        forall|k: int| 0 <= k < r@.len() ==> in_format_range(#[trigger] r@[k] as int, f),
{
    let width: usize = match f {
        SampleFormat::Int8 => 1,
        SampleFormat::Int16 => 2,
        SampleFormat::Int24 => 3,
        SampleFormat::Float => 4,
    };
    let mut out: Vec<i32> = Vec::new();
    let mut k: usize = 0;
    let mut pos: usize = 0;
    let blen = b.len();
    while k < count
        invariant
            k <= count,
            blen == b@.len(),
            width == format_bytes(f),
            count * format_bytes(f) <= b@.len(),
            pos == k * width,
            ints(out@) == decode_values(b@, count as nat, f).subrange(0, k as int),
            forall|j: int| 0 <= j < out@.len() ==> in_format_range(#[trigger] out@[j] as int, f),
        decreases count - k,
    {
        proof {
            assert((k + 1) * width <= count * width) by (nonlinear_arith)
                requires
                    k < count,
            ;
        }
        let v = decode_stored(b, pos, f);
        let ghost before = out@;
        out.push(v);
        assert(ints(out@) =~= ints(before).push(v as int));
        assert(ints(out@) =~= decode_values(b@, count as nat, f).subrange(0, k + 1));
        assert(pos + width <= b@.len()) by (nonlinear_arith)
            requires
                pos == k * width,
                (k + 1) * width <= count * width,
                count * width <= b@.len(),
        ;
        k = k + 1;
        pos = pos + width;
    }
    assert(decode_values(b@, count as nat, f).subrange(0, count as int) =~= decode_values(
        b@,
        count as nat,
        f,
    ));
    out
}

/// The frame whose present channels hold `vals`, in canonical order.
pub fn scatter_values<T: Sample>(c: &Channels, vals: &Vec<i32>) -> (r: SamplesByChannel<T>)
    requires
        vals@.len() == c.spec_count(),
        forall|k: int| 0 <= k < vals@.len() ==> T::spec_fits(#[trigger] vals@[k] as int),
    ensures
        slot_values(r.slots()) == scatter(c.flags(), ints(vals@)),
{
    let flags = c.to_array();
    let mut slots: [Option<T>; 18] = [None; 18];
    let mut i: usize = 0;
    let mut j: usize = 0;
    while i < 18
        invariant
            i <= 18,
            flags@ == c.flags(),
            vals@.len() == count_true(c.flags()),
            forall|k: int| 0 <= k < vals@.len() ==> T::spec_fits(#[trigger] vals@[k] as int),
            j == count_true(flags@.subrange(0, i as int)),
            j <= i,
            forall|k: int| i <= k < 18 ==> #[trigger] slots@[k] is None,
            forall|k: int|
                0 <= k < i ==> #[trigger] slot_values(slots@)[k] == scatter(c.flags(), ints(vals@))[k],
        decreases 18 - i,
    {
        proof {
            assert(flags@.subrange(0, i + 1).drop_last() =~= flags@.subrange(0, i as int));
            lemma_count_true_prefix_le(flags@, i as int);
        }
        let ghost before = slots@;
        if flags[i] {
            assert(j < vals@.len());
            let x = T::from_i32(vals[j]);
            slots[i] = Some(x);
            assert(slots@ == before.update(i as int, Some(x)));
            assert(slot_values(slots@)[i as int] == scatter(c.flags(), ints(vals@))[i as int]);
            j = j + 1;
        }
        assert forall|k: int| 0 <= k < i + 1 implies #[trigger] slot_values(slots@)[k] == scatter(
            c.flags(),
            ints(vals@),
        )[k] by {
            if k < i {
                assert(slot_values(before)[k] == scatter(c.flags(), ints(vals@))[k]);
            }
        }
        i = i + 1;
    }
    assert(slot_values(slots@) =~= scatter(c.flags(), ints(vals@)));
    SamplesByChannel::from_slots(slots)
}

/// Counting a prefix that stops before a present position leaves that position
/// within the count of the whole.
pub proof fn lemma_count_true_prefix_le(flags: Seq<bool>, i: int)
    requires
        0 <= i < flags.len(),
    ensures
        flags[i] ==> count_true(flags.subrange(0, i)) < count_true(flags),
        count_true(flags.subrange(0, i)) <= count_true(flags),
    decreases flags.len(),
{
    let n = flags.len();
    if i == n - 1 {
        assert(flags.drop_last() =~= flags.subrange(0, i));
    } else {
        lemma_count_true_prefix_le(flags.drop_last(), i);
        assert(flags.drop_last().subrange(0, i) =~= flags.subrange(0, i));
    }
}

/// The frame held by the bytes `b` of a file of format `file` and channels `c`,
/// widened to samples of type `T`.
pub fn decode_frame<T: Sample>(c: &Channels, file: SampleFormat, b: &[u8]) -> (r: SamplesByChannel<T>)
    requires
        c.spec_count() * format_bytes(file) <= b@.len(),
        widens_to(file, T::spec_format()),
        is_int_format(file),
    ensures
        slot_values(r.slots()) == read_frame(*c, b@, file, T::spec_format()),
{
    let count = c.count() as usize;
    let target = T::format();
    let stored = decode_frame_values(b, count, file);
    let mut widened: Vec<i32> = Vec::new();
    let mut k: usize = 0;
    while k < stored.len()
        invariant
            k <= stored@.len(),
            target == T::spec_format(),
            widens_to(file, target),
            is_int_format(target),
            forall|j: int| 0 <= j < stored@.len() ==> in_format_range(#[trigger] stored@[j] as int, file),
            ints(widened@) == widen_all(ints(stored@), file, target).subrange(0, k as int),
            forall|j: int| 0 <= j < widened@.len() ==> T::spec_fits(#[trigger] widened@[j] as int),
        decreases stored@.len() - k,
    {
        let v = widen_sample(stored[k], file, target);
        proof {
            T::lemma_format_fits(v as int);
        }
        let ghost before = widened@;
        widened.push(v);
        assert(ints(widened@) =~= ints(before).push(v as int));
        assert(ints(widened@) =~= widen_all(ints(stored@), file, target).subrange(0, k + 1));
        k = k + 1;
    }
    assert(widen_all(ints(stored@), file, target).subrange(0, stored@.len() as int) =~= widen_all(
        ints(stored@),
        file,
        target,
    ));
    scatter_values::<T>(c, &widened)
}

/// The frame of stored values held by the bytes `b` of a file of format `file`
/// and channels `c`: the values themselves for integer formats, the bit patterns
/// for the float format.
pub fn decode_stored_frame(c: &Channels, file: SampleFormat, b: &[u8]) -> (r: SamplesByChannel<i32>)
    requires
        c.spec_count() * format_bytes(file) <= b@.len(),
    ensures
        slot_values(r.slots()) == read_frame(*c, b@, file, file),
{
    let count = c.count() as usize;
    let stored = decode_frame_values(b, count, file);
    assert(widen_all(ints(stored@), file, file) =~= ints(stored@));
    scatter_values::<i32>(c, &stored)
}

/// A signed little-endian value depends only on its own bytes.
pub proof fn lemma_signed_le_same_bytes(s: Seq<u8>, i: int, t: Seq<u8>, j: int, w: nat)
    requires
        1 <= w <= 4,
        0 <= i,
        i + w <= s.len(),
        0 <= j,
        j + w <= t.len(),
        forall|d: int| 0 <= d < w ==> #[trigger] s[i + d] == t[j + d],
    ensures
        signed_le(s, i, w) == signed_le(t, j, w),
{
    assert(s[i + 0] == t[j + 0]);
    if w >= 2 {
        assert(s[i + 1] == t[j + 1]);
    }
    if w >= 3 {
        assert(s[i + 2] == t[j + 2]);
    }
    if w >= 4 {
        assert(s[i + 3] == t[j + 3]);
    }
}

/// Encoded values take `width` bytes each.
pub proof fn lemma_encode_values_len(vals: Seq<int>, src: SampleFormat, dst: SampleFormat)
    ensures
        encode_values(vals, src, dst).len() == vals.len() * format_bytes(dst),
    decreases vals.len(),
{
    if vals.len() > 0 {
        lemma_encode_values_len(vals.drop_last(), src, dst);
        let w = format_bytes(dst);
        assert(signed_bytes(widen(vals.last(), src, dst), w).len() == w);
        assert((vals.len() - 1) * w + w == vals.len() * w) by (nonlinear_arith);
    }
}

/// Decoding the bytes of encoded values, followed by anything, gives back the
/// values, widened.
pub proof fn lemma_decode_encoded(
    vals: Seq<int>,
    src: SampleFormat,
    dst: SampleFormat,
    rest: Seq<u8>,
)
    requires
        forall|k: int| 0 <= k < vals.len() ==> in_format_range(#[trigger] vals[k], src),
        widens_to(src, dst),
        is_int_format(dst),
    ensures
        decode_values(encode_values(vals, src, dst) + rest, vals.len(), dst) == widen_all(
            vals,
            src,
            dst,
        ),
    decreases vals.len(),
{
    let w = format_bytes(dst);
    let b = encode_values(vals, src, dst) + rest;
    if vals.len() > 0 {
        let init = vals.drop_last();
        let last_bytes = signed_bytes(widen(vals.last(), src, dst), w);
        let b2 = encode_values(init, src, dst) + (last_bytes + rest);
        assert(b =~= b2);
        lemma_decode_encoded(init, src, dst, last_bytes + rest);
        lemma_encode_values_len(init, src, dst);
        let n = vals.len() - 1;
        assert forall|k: int| 0 <= k < vals.len() implies #[trigger] decode_values(
            b,
            vals.len(),
            dst,
        )[k] == widen_all(vals, src, dst)[k] by {
            if k < n {
                assert(decode_values(b2, init.len(), dst)[k] == widen_all(init, src, dst)[k]);
            } else {
                lemma_widen_in_range(vals.last(), src, dst);
                crate::sample::lemma_stored_round_trip(widen(vals.last(), src, dst), dst);
                assert forall|d: int| 0 <= d < w implies #[trigger] b[n * w + d] == last_bytes[0 + d] by {
                    assert(b2[n * w + d] == (last_bytes + rest)[d]);
                }
                assert(n * w + w <= b.len()) by (nonlinear_arith)
                    requires
                        b.len() >= n * w + w,
                ;
                lemma_signed_le_same_bytes(b, n * w, last_bytes, 0, w);
            }
        }
        assert(decode_values(b, vals.len(), dst) =~= widen_all(vals, src, dst));
    } else {
        assert(decode_values(b, 0, dst) =~= widen_all(vals, src, dst));
    }
}

/// A widened value lies in the range of the wider format.
pub proof fn lemma_widen_in_range(v: int, src: SampleFormat, dst: SampleFormat)
    requires
        in_format_range(v, src),
        widens_to(src, dst),
        is_int_format(dst),
    ensures
        in_format_range(widen(v, src, dst), dst),
{
}

/// Gathering a frame's values and scattering them back gives the frame's values
/// at the present channels and nothing elsewhere.
pub proof fn lemma_gather_scatter(
    flags: Seq<bool>,
    vals: Seq<Option<int>>,
    src: SampleFormat,
    n: nat,
)
    requires
        flags.len() == 18,
        vals.len() == 18,
        n <= 18,
        gather(flags, vals, src, n) is Ok,
    ensures
        gather(flags, vals, src, n)->Ok_0.len() == count_true(flags.subrange(0, n as int)),
        forall|i: int|
            0 <= i < n && flags[i] ==> vals[i] == Some(
                #[trigger] gather(flags, vals, src, n)->Ok_0[count_true(flags.subrange(0, i)) as int],
            ),
        forall|i: int|
            0 <= i < n && flags[i] ==> in_format_range(#[trigger] vals[i]->Some_0, src),
    decreases n,
{
    if n > 0 {
        let m = (n - 1) as nat;
        lemma_gather_scatter(flags, vals, src, m);
        assert(flags.subrange(0, n as int).drop_last() =~= flags.subrange(0, m as int));
        let g = gather(flags, vals, src, m)->Ok_0;
        let gn = gather(flags, vals, src, n)->Ok_0;
        assert forall|i: int| 0 <= i < n && flags[i] implies vals[i] == Some(
            #[trigger] gn[count_true(flags.subrange(0, i)) as int],
        ) by {
            if i < m {
                assert(vals[i] == Some(g[count_true(flags.subrange(0, i)) as int]));
                let fm = flags.subrange(0, m as int);
                lemma_count_true_prefix_le(fm, i);
                assert(fm.subrange(0, i) =~= flags.subrange(0, i));
            }
        }
    }
}

/// Writing a frame of samples of format `src` to a file of format `file`, and
/// reading the written bytes back as samples of format `target`, gives each
/// present channel's value widened from `src` to `target`, and no value for the
/// other channels. With `src == file == target` the values come back unchanged.
pub proof fn lemma_frame_round_trip(
    c: Channels,
    vals: Seq<Option<int>>,
    src: SampleFormat,
    file: SampleFormat,
    target: SampleFormat,
    rest: Seq<u8>,
)
    requires
        vals.len() == 18,
        gather(c.flags(), vals, src, 18) is Ok,
        widens_to(src, file),
        widens_to(file, target),
        is_int_format(target),
    ensures
        ({
            let written = encode_values(gather(c.flags(), vals, src, 18)->Ok_0, src, file);
            let back = read_frame(c, written + rest, file, target);
            forall|i: int|
                0 <= i < 18 ==> #[trigger] back[i] == if c.flags()[i] {
                    Some(widen(widen(vals[i]->Some_0, src, file), file, target))
                } else {
                    None
                }
        }),
        src == file && file == target ==> ({
            let written = encode_values(gather(c.flags(), vals, src, 18)->Ok_0, src, file);
            let back = read_frame(c, written + rest, file, target);
            forall|i: int|
                0 <= i < 18 ==> #[trigger] back[i] == if c.flags()[i] {
                    vals[i]
                } else {
                    None
                }
        }),
{
    let flags = c.flags();
    let g = gather(flags, vals, src, 18)->Ok_0;
    lemma_gather_scatter(flags, vals, src, 18);
    assert(flags.subrange(0, 18) =~= flags);
    assert forall|k: int| 0 <= k < g.len() implies in_format_range(#[trigger] g[k], src) by {
        lemma_gather_values_in_range(flags, vals, src, 18, k);
    }
    lemma_decode_encoded(g, src, file, rest);
    let written = encode_values(g, src, file);
    let back = read_frame(c, written + rest, file, target);
    assert forall|i: int| 0 <= i < 18 implies #[trigger] back[i] == if flags[i] {
        Some(widen(widen(vals[i]->Some_0, src, file), file, target))
    } else {
        None
    } by {
        if flags[i] {
            lemma_count_true_prefix_le(flags, i);
        }
    }
    if src == file && file == target {
        assert forall|i: int| 0 <= i < 18 implies #[trigger] back[i] == if flags[i] {
            vals[i]
        } else {
            None
        } by {
            if flags[i] {
                assert(vals[i] == Some(g[count_true(flags.subrange(0, i)) as int]));
            }
        }
    }
}

/// Every gathered value lies in the range of the source format.
pub proof fn lemma_gather_values_in_range(
    flags: Seq<bool>,
    vals: Seq<Option<int>>,
    src: SampleFormat,
    n: nat,
    k: int,
)
    requires
        gather(flags, vals, src, n) is Ok,
        0 <= k < gather(flags, vals, src, n)->Ok_0.len(),
    ensures
        in_format_range(gather(flags, vals, src, n)->Ok_0[k], src),
    decreases n,
{
    if n > 0 {
        let m = (n - 1) as nat;
        if k < gather(flags, vals, src, m)->Ok_0.len() {
            lemma_gather_values_in_range(flags, vals, src, m, k);
        }
    }
}

} // verus!
