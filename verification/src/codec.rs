use vstd::prelude::*;

verus! {

// ---------------------------------------------------------------------------
// Wire encoding, specification side.
//
// Every numeric field travels little-endian; scalars are the four bytes of
// an IEEE-754 single-precision bit pattern; lengths are Bitcoin-style
// variable-length integers (one byte below 0xFD, otherwise a marker byte
// followed by a little-endian 16-, 32- or 64-bit value, minimal form
// required); names are length-prefixed UTF-8 bytes.
// ---------------------------------------------------------------------------

/// The `width` little-endian bytes of `n` (low byte first).
pub open spec fn le_bytes(n: nat, width: nat) -> Seq<u8>
    decreases width,
{
    if width == 0 {
        Seq::empty()
    } else {
        seq![(n % 256) as u8] + le_bytes(n / 256, (width - 1) as nat)
    }
}

/// Variable-length integer encoding of `n`, minimal form.
pub open spec fn varint_enc(n: nat) -> Seq<u8> {
    if n <= 0xFC {
        seq![n as u8]
    } else if n <= 0xFFFF {
        seq![0xFDu8] + le_bytes(n, 2)
    } else if n <= 0xFFFFFFFF {
        seq![0xFEu8] + le_bytes(n, 4)
    } else {
        seq![0xFFu8] + le_bytes(n, 8)
    }
}

/// The four little-endian bytes of a scalar's bit pattern.
pub open spec fn u32_le(x: u32) -> Seq<u8> {
    le_bytes(x as nat, 4)
}

/// One byte, 1 for true and 0 for false.
pub open spec fn bool_enc(b: bool) -> Seq<u8> {
    seq![if b { 1u8 } else { 0u8 }]
}

/// A name: its length as a varint, then its bytes.
pub open spec fn str_enc(s: Seq<u8>) -> Seq<u8> {
    varint_enc(s.len()) + s
}

/// The encoded names themselves, in order, without the leading count.
pub open spec fn names_enc_items(v: Seq<Seq<u8>>) -> Seq<u8>
    decreases v.len(),
{
    if v.len() == 0 {
        Seq::empty()
    } else {
        str_enc(v[0]) + names_enc_items(v.drop_first())
    }
}

/// A list of names: its length as a varint, then each name in order.
pub open spec fn names_enc(v: Seq<Seq<u8>>) -> Seq<u8> {
    varint_enc(v.len()) + names_enc_items(v)
}

/// The bytes of the fixed identity greeting.
pub open spec fn hello_bytes() -> Seq<u8> {
    seq![0x68u8, 0x65u8, 0x6Cu8, 0x6Cu8, 0x6Fu8]
}

// ---------------------------------------------------------------------------
// Wire encoding, executable side.
// ---------------------------------------------------------------------------

proof fn lemma_le_bytes_unfold(n: nat)
    ensures
        le_bytes(n, 2) == seq![(n % 256) as u8, (n / 256 % 256) as u8],
        le_bytes(n, 4) == seq![
            (n % 256) as u8,
            (n / 256 % 256) as u8,
            (n / 256 / 256 % 256) as u8,
            (n / 256 / 256 / 256 % 256) as u8,
        ],
        le_bytes(n, 8) == seq![
            (n % 256) as u8,
            (n / 256 % 256) as u8,
            (n / 256 / 256 % 256) as u8,
            (n / 256 / 256 / 256 % 256) as u8,
            (n / 256 / 256 / 256 / 256 % 256) as u8,
            (n / 256 / 256 / 256 / 256 / 256 % 256) as u8,
            (n / 256 / 256 / 256 / 256 / 256 / 256 % 256) as u8,
            (n / 256 / 256 / 256 / 256 / 256 / 256 / 256 % 256) as u8,
        ],
{
    reveal_with_fuel(le_bytes, 10);
    assert(le_bytes(n, 2) =~= seq![(n % 256) as u8, (n / 256 % 256) as u8]);
    assert(le_bytes(n, 4) =~= seq![
        (n % 256) as u8,
        (n / 256 % 256) as u8,
        (n / 256 / 256 % 256) as u8,
        (n / 256 / 256 / 256 % 256) as u8,
    ]);
    assert(le_bytes(n, 8) =~= seq![
        (n % 256) as u8,
        (n / 256 % 256) as u8,
        (n / 256 / 256 % 256) as u8,
        (n / 256 / 256 / 256 % 256) as u8,
        (n / 256 / 256 / 256 / 256 % 256) as u8,
        (n / 256 / 256 / 256 / 256 / 256 % 256) as u8,
        (n / 256 / 256 / 256 / 256 / 256 / 256 % 256) as u8,
        (n / 256 / 256 / 256 / 256 / 256 / 256 / 256 % 256) as u8,
    ]);
}

/// Appends the four little-endian bytes of `x`.
pub fn write_u32_le(out: &mut Vec<u8>, x: u32)
    ensures
        final(out)@ == old(out)@ + u32_le(x),
{
    let b0: u8 = (x % 256) as u8;
    let r1: u32 = x / 256;
    let b1: u8 = (r1 % 256) as u8;
    let r2: u32 = r1 / 256;
    let b2: u8 = (r2 % 256) as u8;
    let r3: u32 = r2 / 256;
    let b3: u8 = (r3 % 256) as u8;
    out.push(b0);
    out.push(b1);
    out.push(b2);
    out.push(b3);
    proof {
        lemma_le_bytes_unfold(x as nat);
        assert(out@ =~= old(out)@ + u32_le(x));
    }
}

/// Appends one byte: 1 for true, 0 for false.
pub fn write_bool(out: &mut Vec<u8>, b: bool)
    ensures
        final(out)@ == old(out)@ + bool_enc(b),
{
    out.push(if b { 1 } else { 0 });
    proof {
        assert(out@ =~= old(out)@ + bool_enc(b));
    }
}

/// Appends the minimal varint form of `n`.
pub fn write_varint(out: &mut Vec<u8>, n: u64)
    ensures
        final(out)@ == old(out)@ + varint_enc(n as nat),
{
    if n <= 0xFC {
        out.push(n as u8);
        proof {
            assert(out@ =~= old(out)@ + varint_enc(n as nat));
        }
    } else if n <= 0xFFFF {
        out.push(0xFD);
        let b0: u8 = (n % 256) as u8;
        let r1: u64 = n / 256;
        let b1: u8 = (r1 % 256) as u8;
        out.push(b0);
        out.push(b1);
        proof {
            lemma_le_bytes_unfold(n as nat);
            assert(out@ =~= old(out)@ + varint_enc(n as nat));
        }
    } else if n <= 0xFFFFFFFF {
        out.push(0xFE);
        let b0: u8 = (n % 256) as u8;
        let r1: u64 = n / 256;
        let b1: u8 = (r1 % 256) as u8;
        let r2: u64 = r1 / 256;
        let b2: u8 = (r2 % 256) as u8;
        let r3: u64 = r2 / 256;
        let b3: u8 = (r3 % 256) as u8;
        out.push(b0);
        out.push(b1);
        out.push(b2);
        out.push(b3);
        proof {
            lemma_le_bytes_unfold(n as nat);
            assert(out@ =~= old(out)@ + varint_enc(n as nat));
        }
    } else {
        out.push(0xFF);
        let b0: u8 = (n % 256) as u8;
        let r1: u64 = n / 256;
        let b1: u8 = (r1 % 256) as u8;
        let r2: u64 = r1 / 256;
        let b2: u8 = (r2 % 256) as u8;
        let r3: u64 = r2 / 256;
        let b3: u8 = (r3 % 256) as u8;
        let r4: u64 = r3 / 256;
        let b4: u8 = (r4 % 256) as u8;
        let r5: u64 = r4 / 256;
        let b5: u8 = (r5 % 256) as u8;
        let r6: u64 = r5 / 256;
        let b6: u8 = (r6 % 256) as u8;
        let r7: u64 = r6 / 256;
        let b7: u8 = (r7 % 256) as u8;
        out.push(b0);
        out.push(b1);
        out.push(b2);
        out.push(b3);
        out.push(b4);
        out.push(b5);
        out.push(b6);
        out.push(b7);
        proof {
            lemma_le_bytes_unfold(n as nat);
            assert(out@ =~= old(out)@ + varint_enc(n as nat));
        }
    }
}

/// Appends a length-prefixed name.
pub fn write_str_bytes(out: &mut Vec<u8>, s: &Vec<u8>)
    ensures
        final(out)@ == old(out)@ + str_enc(s@),
{
    write_varint(out, s.len() as u64);
    let ghost mid: Seq<u8> = out@;
    let mut i: usize = 0;
    while i < s.len()
        invariant
            i <= s.len(),
            out@ == mid + s@.subrange(0, i as int),
        decreases s.len() - i,
    {
        out.push(s[i]);
        i = i + 1;
        proof {
            assert(out@ =~= mid + s@.subrange(0, i as int));
        }
    }
    proof {
        assert(s@.subrange(0, s@.len() as int) =~= s@);
        assert(out@ =~= old(out)@ + str_enc(s@));
    }
}

/// The name sequences a vector of byte names stands for.
pub open spec fn names_view(v: Seq<Vec<u8>>) -> Seq<Seq<u8>> {
    v.map_values(|n: Vec<u8>| n@)
}

proof fn lemma_names_enc_items_push(v: Seq<Seq<u8>>, x: Seq<u8>)
    ensures
        names_enc_items(v.push(x)) == names_enc_items(v) + str_enc(x),
    decreases v.len(),
{
    reveal_with_fuel(names_enc_items, 3);
    if v.len() == 0 {
        assert(v.push(x).drop_first() =~= Seq::<Seq<u8>>::empty());
        assert(names_enc_items(v.push(x)) =~= names_enc_items(v) + str_enc(x));
    } else {
        assert(v.push(x).drop_first() =~= v.drop_first().push(x));
        lemma_names_enc_items_push(v.drop_first(), x);
        assert(names_enc_items(v.push(x)) =~= names_enc_items(v) + str_enc(x));
    }
}

/// Appends a counted list of length-prefixed names.
pub fn write_names(out: &mut Vec<u8>, names: &Vec<Vec<u8>>)
    ensures
        final(out)@ == old(out)@ + names_enc(names_view(names@)),
{
    write_varint(out, names.len() as u64);
    let ghost mid: Seq<u8> = out@;
    let mut i: usize = 0;
    while i < names.len()
        invariant
            i <= names.len(),
            out@ == mid + names_enc_items(names_view(names@).subrange(0, i as int)),
        decreases names.len() - i,
    {
        proof {
            assert(names_view(names@).subrange(0, i as int + 1) =~= names_view(names@).subrange(
                0,
                i as int,
            ).push(names@[i as int]@));
            lemma_names_enc_items_push(
                names_view(names@).subrange(0, i as int),
                names@[i as int]@,
            );
        }
        write_str_bytes(out, &names[i]);
        i = i + 1;
    }
    proof {
        assert(names_view(names@).subrange(0, names@.len() as int) =~= names_view(names@));
        assert(out@ =~= old(out)@ + names_enc(names_view(names@)));
    }
}

// ---------------------------------------------------------------------------
// Wire decoding, specification side.
//
// Each parser yields the decoded value and the count of consumed bytes, or
// nothing when the input is malformed.
// ---------------------------------------------------------------------------

/// Whether a byte sequence is valid UTF-8. Uninterpreted: the executable
/// check is delegated to the standard library.
pub uninterp spec fn is_utf8(s: Seq<u8>) -> bool;

/// Parses a varint: one byte below 0xFD, otherwise a marker byte followed
/// by a little-endian value that must be in minimal form.
pub open spec fn varint_parse(s: Seq<u8>) -> Option<(nat, nat)> {
    if s.len() < 1 {
        None
    } else if s[0] < 0xFD {
        Some((s[0] as nat, 1))
    } else if s[0] == 0xFD {
        if s.len() < 3 {
            None
        } else {
            let x = s[1] as nat + 256 * (s[2] as nat);
            if x >= 0xFD {
                Some((x, 3))
            } else {
                None
            }
        }
    } else if s[0] == 0xFE {
        if s.len() < 5 {
            None
        } else {
            let x = s[1] as nat + 256 * (s[2] as nat) + 65536 * (s[3] as nat) + 16777216 * (
            s[4] as nat);
            if x >= 0x10000 {
                Some((x, 5))
            } else {
                None
            }
        }
    } else {
        if s.len() < 9 {
            None
        } else {
            let x = s[1] as nat + 256 * (s[2] as nat) + 65536 * (s[3] as nat) + 16777216 * (
            s[4] as nat) + 0x1_0000_0000 * (s[5] as nat) + 0x100_0000_0000 * (s[6] as nat)
                + 0x1_0000_0000_0000 * (s[7] as nat) + 0x100_0000_0000_0000 * (s[8] as nat);
            if x >= 0x1_0000_0000 {
                Some((x, 9))
            } else {
                None
            }
        }
    }
}

/// Parses the four little-endian bytes of a scalar's bit pattern.
pub open spec fn u32_parse(s: Seq<u8>) -> Option<(u32, nat)> {
    if s.len() < 4 {
        None
    } else {
        Some(
            (
                (s[0] as nat + 256 * (s[1] as nat) + 65536 * (s[2] as nat) + 16777216 * (
                s[3] as nat)) as u32,
                4,
            ),
        )
    }
}

/// Parses `n` consecutive scalars.
pub open spec fn u32s_parse(s: Seq<u8>, n: nat) -> Option<(Seq<u32>, nat)>
    decreases n,
{
    if n == 0 {
        Some((Seq::empty(), 0))
    } else {
        match u32_parse(s) {
            None => None,
            Some((x, c)) => match u32s_parse(s.skip(c as int), (n - 1) as nat) {
                None => None,
                Some((xs, c2)) => Some((seq![x] + xs, c + c2)),
            },
        }
    }
}

/// Parses a length-prefixed run of raw bytes.
pub open spec fn bytes_parse(s: Seq<u8>) -> Option<(Seq<u8>, nat)> {
    match varint_parse(s) {
        None => None,
        Some((len, c)) => if s.len() >= c + len {
            Some((s.subrange(c as int, (c + len) as int), c + len))
        } else {
            None
        },
    }
}

/// Parses a name: length-prefixed bytes that must form valid UTF-8.
pub open spec fn string_parse(s: Seq<u8>) -> Option<(Seq<u8>, nat)> {
    match bytes_parse(s) {
        None => None,
        Some((b, c)) => if is_utf8(b) {
            Some((b, c))
        } else {
            None
        },
    }
}

// ---------------------------------------------------------------------------
// The encoders and the parsers agree: whatever one side of the wire
// writes, the other reads back, whatever follows it in the buffer.
// ---------------------------------------------------------------------------

/// A varint parses back to the value it encoded, consuming exactly its
/// own bytes; in particular the minimal-form check accepts every encoded
/// varint.
pub proof fn lemma_varint_round_trip(n: nat, rest: Seq<u8>)
    requires
        n < 0x1_0000_0000_0000_0000,
    ensures
        varint_parse(varint_enc(n) + rest) == Some((n, varint_enc(n).len())),
{
    let s = varint_enc(n) + rest;
    if n <= 0xFC {
        assert(s[0] == n as u8);
        assert(varint_parse(s) == Some((n, 1nat)));
    } else if n <= 0xFFFF {
        lemma_le_bytes_unfold(n);
        assert(s[0] == 0xFDu8);
        assert(s[1] == (n % 256) as u8);
        assert(s[2] == (n / 256 % 256) as u8);
        assert(n / 256 < 256);
        vstd::arithmetic::div_mod::lemma_fundamental_div_mod(n as int, 256);
        assert(s[1] as nat + 256 * (s[2] as nat) == n);
        assert(varint_parse(s) == Some((n, 3nat)));
    } else if n <= 0xFFFFFFFF {
        lemma_le_bytes_unfold(n);
        assert(s[0] == 0xFEu8);
        assert(s[1] == (n % 256) as u8);
        assert(s[2] == (n / 256 % 256) as u8);
        assert(s[3] == (n / 256 / 256 % 256) as u8);
        assert(s[4] == (n / 256 / 256 / 256 % 256) as u8);
        assert(n / 256 / 256 / 256 < 256);
        vstd::arithmetic::div_mod::lemma_fundamental_div_mod(n as int, 256);
        vstd::arithmetic::div_mod::lemma_fundamental_div_mod((n / 256) as int, 256);
        vstd::arithmetic::div_mod::lemma_fundamental_div_mod((n / 256 / 256) as int, 256);
        assert(s[1] as nat + 256 * (s[2] as nat) + 65536 * (s[3] as nat) + 16777216 * (
        s[4] as nat) == n);
        assert(varint_parse(s) == Some((n, 5nat)));
    } else {
        lemma_le_bytes_unfold(n);
        assert(s[0] == 0xFFu8);
        assert(n / 256 / 256 / 256 / 256 / 256 / 256 / 256 < 256);
        vstd::arithmetic::div_mod::lemma_fundamental_div_mod(n as int, 256);
        vstd::arithmetic::div_mod::lemma_fundamental_div_mod((n / 256) as int, 256);
        vstd::arithmetic::div_mod::lemma_fundamental_div_mod((n / 256 / 256) as int, 256);
        vstd::arithmetic::div_mod::lemma_fundamental_div_mod((n / 256 / 256 / 256) as int, 256);
        vstd::arithmetic::div_mod::lemma_fundamental_div_mod(
            (n / 256 / 256 / 256 / 256) as int,
            256,
        );
        vstd::arithmetic::div_mod::lemma_fundamental_div_mod(
            (n / 256 / 256 / 256 / 256 / 256) as int,
            256,
        );
        vstd::arithmetic::div_mod::lemma_fundamental_div_mod(
            (n / 256 / 256 / 256 / 256 / 256 / 256) as int,
            256,
        );
        assert(s[1] as nat + 256 * (s[2] as nat) + 65536 * (s[3] as nat) + 16777216 * (
        s[4] as nat) + 0x1_0000_0000 * (s[5] as nat) + 0x100_0000_0000 * (s[6] as nat)
            + 0x1_0000_0000_0000 * (s[7] as nat) + 0x100_0000_0000_0000 * (s[8] as nat) == n);
        assert(varint_parse(s) == Some((n, 9nat)));
    }
}

/// A scalar's four bytes parse back to the bit pattern they encoded.
pub proof fn lemma_u32_round_trip(x: u32, rest: Seq<u8>)
    ensures
        u32_parse(u32_le(x) + rest) == Some((x, 4nat)),
{
    let s = u32_le(x) + rest;
    let n = x as nat;
    lemma_le_bytes_unfold(n);
    assert(s[0] == (n % 256) as u8);
    assert(s[1] == (n / 256 % 256) as u8);
    assert(s[2] == (n / 256 / 256 % 256) as u8);
    assert(s[3] == (n / 256 / 256 / 256 % 256) as u8);
    assert(n / 256 / 256 / 256 < 256);
    vstd::arithmetic::div_mod::lemma_fundamental_div_mod(n as int, 256);
    vstd::arithmetic::div_mod::lemma_fundamental_div_mod((n / 256) as int, 256);
    vstd::arithmetic::div_mod::lemma_fundamental_div_mod((n / 256 / 256) as int, 256);
    assert(s[0] as nat + 256 * (s[1] as nat) + 65536 * (s[2] as nat) + 16777216 * (s[3] as nat)
        == n);
}

/// An encoded name parses back to its own bytes, consuming exactly its
/// own encoding, provided it is valid UTF-8 (as any name the engine
/// serialized was).
pub proof fn lemma_str_round_trip(b: Seq<u8>, rest: Seq<u8>)
    requires
        b.len() < 0x1_0000_0000_0000_0000,
        is_utf8(b),
    ensures
        string_parse(str_enc(b) + rest) == Some((b, str_enc(b).len())),
{
    let s = str_enc(b) + rest;
    let c = varint_enc(b.len()).len();
    lemma_varint_round_trip(b.len(), b + rest);
    assert(varint_enc(b.len()) + (b + rest) =~= s);
    assert(varint_parse(s) == Some((b.len(), c as nat)));
    assert(s.subrange(c as int, c as int + b.len() as int) =~= b);
    assert(bytes_parse(s) == Some((b, (c + b.len()) as nat)));
}

// ---------------------------------------------------------------------------
// Wire decoding, executable side.
// ---------------------------------------------------------------------------

/// Relies on `core::str::from_utf8`, which succeeds exactly on valid UTF-8.
#[verifier::external_body]
pub fn check_utf8(v: &[u8]) -> (r: bool)
    ensures
        r == is_utf8(v@),
{
    core::str::from_utf8(v).is_ok()
}

/// Reads a varint at `pos`, returning the value and the position after it.
pub fn read_varint(s: &[u8], pos: usize) -> (r: Option<(u64, usize)>)
    requires
        pos <= s@.len(),
    ensures
        ({
            let sp = varint_parse(s@.skip(pos as int));
            match r {
                None => sp is None,
                Some((v, np)) => pos <= np <= s@.len() && sp == Some(
                    (v as nat, (np - pos) as nat),
                ),
            }
        }),
{
    proof {
        assert forall|i: int| 0 <= i < s@.len() - pos implies #[trigger] s@.skip(pos as int)[i]
            == s@[pos + i] by {}
    }
    if s.len() - pos < 1 {
        return None;
    }
    let tag: u8 = s[pos];
    if tag < 0xFD {
        Some((tag as u64, pos + 1))
    } else if tag == 0xFD {
        if s.len() - pos < 3 {
            return None;
        }
        let x: u64 = s[pos + 1] as u64 + 256 * (s[pos + 2] as u64);
        if x >= 0xFD {
            Some((x, pos + 3))
        } else {
            None
        }
    } else if tag == 0xFE {
        if s.len() - pos < 5 {
            return None;
        }
        let x: u64 = s[pos + 1] as u64 + 256 * (s[pos + 2] as u64) + 65536 * (s[pos + 3] as u64)
            + 16777216 * (s[pos + 4] as u64);
        if x >= 0x10000 {
            Some((x, pos + 5))
        } else {
            None
        }
    } else {
        if s.len() - pos < 9 {
            return None;
        }
        let x: u64 = s[pos + 1] as u64 + 256 * (s[pos + 2] as u64) + 65536 * (s[pos + 3] as u64)
            + 16777216 * (s[pos + 4] as u64) + 0x1_0000_0000 * (s[pos + 5] as u64)
            + 0x100_0000_0000 * (s[pos + 6] as u64) + 0x1_0000_0000_0000 * (s[pos + 7] as u64)
            + 0x100_0000_0000_0000 * (s[pos + 8] as u64);
        if x >= 0x1_0000_0000 {
            Some((x, pos + 9))
        } else {
            None
        }
    }
}

/// Reads a scalar's four little-endian bytes at `pos`.
pub fn read_u32(s: &[u8], pos: usize) -> (r: Option<(u32, usize)>)
    requires
        pos <= s@.len(),
    ensures
        ({
            let sp = u32_parse(s@.skip(pos as int));
            match r {
                None => sp is None,
                Some((v, np)) => pos <= np <= s@.len() && sp == Some((v, (np - pos) as nat)),
            }
        }),
{
    proof {
        assert forall|i: int| 0 <= i < s@.len() - pos implies #[trigger] s@.skip(pos as int)[i]
            == s@[pos + i] by {}
    }
    if s.len() - pos < 4 {
        return None;
    }
    let x: u32 = s[pos] as u32 + 256 * (s[pos + 1] as u32) + 65536 * (s[pos + 2] as u32)
        + 16777216 * (s[pos + 3] as u32);
    Some((x, pos + 4))
}

/// Reads `n` consecutive scalars starting at `pos`.
pub fn read_u32s(s: &[u8], pos: usize, n: usize) -> (r: Option<(Vec<u32>, usize)>)
    requires
        pos <= s@.len(),
    ensures
        ({
            let sp = u32s_parse(s@.skip(pos as int), n as nat);
            match r {
                None => sp is None,
                Some((xs, np)) => pos <= np <= s@.len() && xs@.len() == n && sp == Some(
                    (xs@, (np - pos) as nat),
                ),
            }
        }),
    decreases n,
{
    if n == 0 {
        let xs: Vec<u32> = Vec::new();
        proof {
            assert(u32s_parse(s@.skip(pos as int), 0) == Some((Seq::<u32>::empty(), 0nat)));
            assert(xs@ =~= Seq::<u32>::empty());
        }
        Some((xs, pos))
    } else {
        match read_u32(s, pos) {
            None => None,
            Some((x, p2)) => {
                match read_u32s(s, p2, n - 1) {
                    None => {
                        proof {
                            assert(s@.skip(pos as int).skip(4) =~= s@.skip(p2 as int));
                        }
                        None
                    },
                    Some((xs, p3)) => {
                        let mut xs = xs;
                        xs.insert(0, x);
                        proof {
                            assert(s@.skip(pos as int).skip(4) =~= s@.skip(p2 as int));
                            assert(xs@ =~= seq![x] + xs@.skip(1));
                        }
                        Some((xs, p3))
                    },
                }
            },
        }
    }
}

/// Reads a length-prefixed run of raw bytes at `pos`.
pub fn read_bytes(s: &[u8], pos: usize) -> (r: Option<(Vec<u8>, usize)>)
    requires
        pos <= s@.len(),
    ensures
        ({
            let sp = bytes_parse(s@.skip(pos as int));
            match r {
                None => sp is None,
                Some((b, np)) => pos <= np <= s@.len() && sp == Some((b@, (np - pos) as nat)),
            }
        }),
{
    match read_varint(s, pos) {
        None => None,
        Some((len, p2)) => {
            let rem: usize = s.len() - p2;
            if len > rem as u64 {
                proof {
                    assert(bytes_parse(s@.skip(pos as int)) is None);
                }
                return None;
            }
            let lenu: usize = len as usize;
            let slen: usize = s.len();
            let mut out: Vec<u8> = Vec::new();
            let mut i: usize = 0;
            while i < lenu
                invariant
                    i <= lenu,
                    slen == s@.len(),
                    p2 + lenu <= slen,
                    out@ == s@.subrange(p2 as int, p2 as int + i as int),
                decreases lenu - i,
            {
                out.push(s[p2 + i]);
                i = i + 1;
                proof {
                    assert(out@ =~= s@.subrange(p2 as int, p2 as int + i as int));
                }
            }
            proof {
                assert(s@.skip(pos as int).subrange(
                    (p2 - pos) as int,
                    (p2 - pos) as int + len as int,
                ) =~= s@.subrange(p2 as int, p2 as int + len as int));
            }
            Some((out, p2 + lenu))
        },
    }
}

/// Reads a name at `pos`: length-prefixed bytes that must form valid UTF-8.
pub fn read_string(s: &[u8], pos: usize) -> (r: Option<(Vec<u8>, usize)>)
    requires
        pos <= s@.len(),
    ensures
        ({
            let sp = string_parse(s@.skip(pos as int));
            match r {
                None => sp is None,
                Some((b, np)) => pos <= np <= s@.len() && sp == Some((b@, (np - pos) as nat)),
            }
        }),
{
    match read_bytes(s, pos) {
        None => None,
        Some((b, np)) => {
            if check_utf8(b.as_slice()) {
                Some((b, np))
            } else {
                None
            }
        },
    }
}

// ---------------------------------------------------------------------------
// Command frames.
//
// A frame is two parts: a single tag byte, then the payload. The tag is a
// closed enumeration; a frame whose shape or payload does not decode is
// rejected as a framing error, never guessed at.
// ---------------------------------------------------------------------------

/// The closed set of command tags.
#[derive(Clone, Copy, Debug, PartialEq, Eq, Structural)]
pub enum Command {
    Hello,
    DrawLine,
    Pan,
    Zoom,
    ScreenToWorld,
    GetLayers,
    DeleteLayer,
    ShowLayer,
    HideLayer,
    SetLayerPos,
    ScreenSize,
}

/// The tag byte each command travels under.
pub open spec fn spec_command_tag(c: Command) -> u8 {
    match c {
        Command::Hello => 0,
        Command::DrawLine => 1,
        Command::Pan => 2,
        Command::Zoom => 3,
        Command::ScreenToWorld => 4,
        Command::GetLayers => 5,
        Command::DeleteLayer => 6,
        Command::ShowLayer => 7,
        Command::HideLayer => 8,
        Command::SetLayerPos => 9,
        Command::ScreenSize => 10,
    }
}

/// The command a tag byte stands for, if any.
pub open spec fn spec_command_from_u8(x: u8) -> Option<Command> {
    if x == 0 {
        Some(Command::Hello)
    } else if x == 1 {
        Some(Command::DrawLine)
    } else if x == 2 {
        Some(Command::Pan)
    } else if x == 3 {
        Some(Command::Zoom)
    } else if x == 4 {
        Some(Command::ScreenToWorld)
    } else if x == 5 {
        Some(Command::GetLayers)
    } else if x == 6 {
        Some(Command::DeleteLayer)
    } else if x == 7 {
        Some(Command::ShowLayer)
    } else if x == 8 {
        Some(Command::HideLayer)
    } else if x == 9 {
        Some(Command::SetLayerPos)
    } else if x == 10 {
        Some(Command::ScreenSize)
    } else {
        None
    }
}

impl Command {
    /// Checked decode of a tag byte: an unknown tag is reported, not
    /// guessed at.
    pub fn from_u8(x: u8) -> (r: Option<Command>)
        ensures
            r == spec_command_from_u8(x),
    {
        if x == 0 {
            Some(Command::Hello)
        } else if x == 1 {
            Some(Command::DrawLine)
        } else if x == 2 {
            Some(Command::Pan)
        } else if x == 3 {
            Some(Command::Zoom)
        } else if x == 4 {
            Some(Command::ScreenToWorld)
        } else if x == 5 {
            Some(Command::GetLayers)
        } else if x == 6 {
            Some(Command::DeleteLayer)
        } else if x == 7 {
            Some(Command::ShowLayer)
        } else if x == 8 {
            Some(Command::HideLayer)
        } else if x == 9 {
            Some(Command::SetLayerPos)
        } else if x == 10 {
            Some(Command::ScreenSize)
        } else {
            None
        }
    }

    /// The tag byte of this command.
    pub fn to_u8(self) -> (r: u8)
        ensures
            r == spec_command_tag(self),
    {
        match self {
            Command::Hello => 0,
            Command::DrawLine => 1,
            Command::Pan => 2,
            Command::Zoom => 3,
            Command::ScreenToWorld => 4,
            Command::GetLayers => 5,
            Command::DeleteLayer => 6,
            Command::ShowLayer => 7,
            Command::HideLayer => 8,
            Command::SetLayerPos => 9,
            Command::ScreenSize => 10,
        }
    }
}

/// Which channel a frame arrived on: the query/ack socket, whose commands
/// each get exactly one reply, or the fire-and-forget socket for
/// high-frequency mutations with no reply.
#[derive(Clone, Copy, Debug, PartialEq, Eq, Structural)]
pub enum Class {
    Query,
    FireForget,
}

/// Why a frame was rejected.
#[derive(Clone, Copy, Debug, PartialEq, Eq, Structural)]
pub enum FrameError {
    /// Not two parts, or the tag part is not a single byte.
    Shape,
    /// The tag byte is outside the closed enumeration.
    UnknownTag,
    /// A command of the other class: a reply-carrying command on the
    /// fire-and-forget channel, or the reverse.
    WrongClass,
    /// The payload does not decode as the tagged command's payload.
    Payload,
}

/// A decoded request, at the specification level: names are byte
/// sequences, scalars are bit patterns.
pub enum RequestModel {
    Hello,
    DrawLine {
        name: Seq<u8>,
        x1: u32,
        y1: u32,
        x2: u32,
        y2: u32,
        thickness: u32,
        r: u32,
        g: u32,
        b: u32,
        a: u32,
    },
    Pan { x: u32, y: u32 },
    Zoom { scale: u32 },
    ScreenToWorld { x: u32, y: u32 },
    GetLayers,
    DeleteLayer { name: Seq<u8> },
    ShowLayer { name: Seq<u8> },
    HideLayer { name: Seq<u8> },
    SetLayerPos { name: Seq<u8>, x: u32, y: u32 },
    ScreenSize,
}

/// A decoded request.
#[derive(Debug)]
pub enum Request {
    Hello,
    DrawLine {
        name: Vec<u8>,
        x1: u32,
        y1: u32,
        x2: u32,
        y2: u32,
        thickness: u32,
        r: u32,
        g: u32,
        b: u32,
        a: u32,
    },
    Pan { x: u32, y: u32 },
    Zoom { scale: u32 },
    ScreenToWorld { x: u32, y: u32 },
    GetLayers,
    DeleteLayer { name: Vec<u8> },
    ShowLayer { name: Vec<u8> },
    HideLayer { name: Vec<u8> },
    SetLayerPos { name: Vec<u8>, x: u32, y: u32 },
    ScreenSize,
}

impl View for Request {
    type V = RequestModel;

    open spec fn view(&self) -> RequestModel {
        match self {
            Request::Hello => RequestModel::Hello,
            Request::DrawLine { name, x1, y1, x2, y2, thickness, r, g, b, a } =>
                RequestModel::DrawLine {
                name: name@,
                x1: *x1,
                y1: *y1,
                x2: *x2,
                y2: *y2,
                thickness: *thickness,
                r: *r,
                g: *g,
                b: *b,
                a: *a,
            },
            Request::Pan { x, y } => RequestModel::Pan { x: *x, y: *y },
            Request::Zoom { scale } => RequestModel::Zoom { scale: *scale },
            Request::ScreenToWorld { x, y } => RequestModel::ScreenToWorld { x: *x, y: *y },
            Request::GetLayers => RequestModel::GetLayers,
            Request::DeleteLayer { name } => RequestModel::DeleteLayer { name: name@ },
            Request::ShowLayer { name } => RequestModel::ShowLayer { name: name@ },
            Request::HideLayer { name } => RequestModel::HideLayer { name: name@ },
            Request::SetLayerPos { name, x, y } => RequestModel::SetLayerPos {
                name: name@,
                x: *x,
                y: *y,
            },
            Request::ScreenSize => RequestModel::ScreenSize,
        }
    }
}

/// The byte sequences a frame's parts stand for.
pub open spec fn parts_view(v: Seq<Vec<u8>>) -> Seq<Seq<u8>> {
    v.map_values(|p: Vec<u8>| p@)
}

/// Parses one command's payload, after the class check. Commands that the
/// engine answers from fixed state (the greeting, the layer list, the
/// screen size) ignore their payload, except that the greeting requires an
/// empty one; commands whose payload is decoded as one self-delimiting
/// value (draw-line, zoom, the layer names) must consume it exactly;
/// commands read field by field ignore trailing bytes.
pub open spec fn parse_payload(cmd: Command, p: Seq<u8>) -> Result<RequestModel, FrameError> {
    match cmd {
        Command::Hello => if p.len() == 0 {
            Ok(RequestModel::Hello)
        } else {
            Err(FrameError::Payload)
        },
        Command::DrawLine => match string_parse(p) {
            None => Err(FrameError::Payload),
            Some((name, c0)) => match u32s_parse(p.skip(c0 as int), 9) {
                None => Err(FrameError::Payload),
                Some((xs, c1)) => if c0 + c1 == p.len() {
                    Ok(
                        RequestModel::DrawLine {
                            name,
                            x1: xs[0],
                            y1: xs[1],
                            x2: xs[2],
                            y2: xs[3],
                            thickness: xs[4],
                            r: xs[5],
                            g: xs[6],
                            b: xs[7],
                            a: xs[8],
                        },
                    )
                } else {
                    Err(FrameError::Payload)
                },
            },
        },
        Command::Pan => match u32_parse(p) {
            None => Err(FrameError::Payload),
            Some((x, c0)) => match u32_parse(p.skip(c0 as int)) {
                None => Err(FrameError::Payload),
                Some((y, c1)) => Ok(RequestModel::Pan { x, y }),
            },
        },
        Command::Zoom => match u32_parse(p) {
            None => Err(FrameError::Payload),
            Some((scale, c0)) => if c0 == p.len() {
                Ok(RequestModel::Zoom { scale })
            } else {
                Err(FrameError::Payload)
            },
        },
        Command::ScreenToWorld => match u32_parse(p) {
            None => Err(FrameError::Payload),
            Some((x, c0)) => match u32_parse(p.skip(c0 as int)) {
                None => Err(FrameError::Payload),
                Some((y, c1)) => Ok(RequestModel::ScreenToWorld { x, y }),
            },
        },
        Command::GetLayers => Ok(RequestModel::GetLayers),
        Command::DeleteLayer => match string_parse(p) {
            None => Err(FrameError::Payload),
            Some((name, c0)) => if c0 == p.len() {
                Ok(RequestModel::DeleteLayer { name })
            } else {
                Err(FrameError::Payload)
            },
        },
        Command::ShowLayer => match string_parse(p) {
            None => Err(FrameError::Payload),
            Some((name, c0)) => if c0 == p.len() {
                Ok(RequestModel::ShowLayer { name })
            } else {
                Err(FrameError::Payload)
            },
        },
        Command::HideLayer => match string_parse(p) {
            None => Err(FrameError::Payload),
            Some((name, c0)) => if c0 == p.len() {
                Ok(RequestModel::HideLayer { name })
            } else {
                Err(FrameError::Payload)
            },
        },
        Command::SetLayerPos => match string_parse(p) {
            None => Err(FrameError::Payload),
            Some((name, c0)) => match u32_parse(p.skip(c0 as int)) {
                None => Err(FrameError::Payload),
                Some((x, c1)) => match u32_parse(p.skip(c0 as int + c1 as int)) {
                    None => Err(FrameError::Payload),
                    Some((y, c2)) => Ok(RequestModel::SetLayerPos { name, x, y }),
                },
            },
        },
        Command::ScreenSize => Ok(RequestModel::ScreenSize),
    }
}

/// Whether a command belongs on the given channel.
pub open spec fn class_ok(cmd: Command, class: Class) -> bool {
    match cmd {
        Command::DrawLine | Command::Pan | Command::Zoom => class is FireForget,
        _ => class is Query,
    }
}

/// Parses a whole frame arriving on the given channel: shape, then tag,
/// then class, then payload.
pub open spec fn parse_request(parts: Seq<Seq<u8>>, class: Class) -> Result<
    RequestModel,
    FrameError,
> {
    if parts.len() != 2 || parts[0].len() != 1 {
        Err(FrameError::Shape)
    } else {
        match spec_command_from_u8(parts[0][0]) {
            None => Err(FrameError::UnknownTag),
            Some(cmd) => if !class_ok(cmd, class) {
                Err(FrameError::WrongClass)
            } else {
                parse_payload(cmd, parts[1])
            },
        }
    }
}

/// The command a decoded request answers to.
pub open spec fn model_cmd(m: RequestModel) -> Command {
    match m {
        RequestModel::Hello => Command::Hello,
        RequestModel::DrawLine { .. } => Command::DrawLine,
        RequestModel::Pan { .. } => Command::Pan,
        RequestModel::Zoom { .. } => Command::Zoom,
        RequestModel::ScreenToWorld { .. } => Command::ScreenToWorld,
        RequestModel::GetLayers => Command::GetLayers,
        RequestModel::DeleteLayer { .. } => Command::DeleteLayer,
        RequestModel::ShowLayer { .. } => Command::ShowLayer,
        RequestModel::HideLayer { .. } => Command::HideLayer,
        RequestModel::SetLayerPos { .. } => Command::SetLayerPos,
        RequestModel::ScreenSize => Command::ScreenSize,
    }
}

/// A payload only ever decodes to its own tag's request.
pub proof fn lemma_parse_payload_cmd(cmd: Command, p: Seq<u8>)
    ensures
        parse_payload(cmd, p) matches Ok(m) ==> model_cmd(m) == cmd,
{
}

/// A request accepted from a channel belongs to that channel's class.
pub proof fn lemma_parse_request_class(parts: Seq<Seq<u8>>, class: Class)
    ensures
        parse_request(parts, class) matches Ok(m) ==> class_ok(model_cmd(m), class),
{
    if parts.len() == 2 && parts[0].len() == 1 {
        match spec_command_from_u8(parts[0][0]) {
            None => {},
            Some(cmd) => {
                lemma_parse_payload_cmd(cmd, parts[1]);
            },
        }
    }
}

/// Whether a command belongs on the given channel.
pub fn class_matches(cmd: Command, class: Class) -> (r: bool)
    ensures
        r == class_ok(cmd, class),
{
    match cmd {
        Command::DrawLine | Command::Pan | Command::Zoom => matches!(class, Class::FireForget),
        _ => matches!(class, Class::Query),
    }
}

/// The model a decode result stands for.
pub open spec fn result_model(r: Result<Request, FrameError>) -> Result<
    RequestModel,
    FrameError,
> {
    match r {
        Ok(q) => Ok(q@),
        Err(e) => Err(e),
    }
}

/// Decodes a two-part command frame from the given channel, exactly as
/// [`parse_request`] describes: a malformed frame is never accepted as a
/// different command.
pub fn decode_request(parts: &Vec<Vec<u8>>, class: Class) -> (r: Result<Request, FrameError>)
    ensures
        result_model(r) == parse_request(parts_view(parts@), class),
{
    let ghost pv: Seq<Seq<u8>> = parts_view(parts@);
    if parts.len() != 2 {
        return Err(FrameError::Shape);
    }
    proof {
        assert(pv[0] == parts@[0]@);
        assert(pv[1] == parts@[1]@);
    }
    if parts[0].len() != 1 {
        return Err(FrameError::Shape);
    }
    let tag: u8 = parts[0][0];
    let cmd: Command = match Command::from_u8(tag) {
        None => {
            return Err(FrameError::UnknownTag);
        },
        Some(c) => c,
    };
    if !class_matches(cmd, class) {
        return Err(FrameError::WrongClass);
    }
    let payload: &Vec<u8> = &parts[1];
    let p: &[u8] = payload.as_slice();
    proof {
        assert(p@.skip(0) =~= p@);
    }
    match cmd {
        Command::Hello => {
            if p.len() == 0 {
                Ok(Request::Hello)
            } else {
                Err(FrameError::Payload)
            }
        },
        Command::DrawLine => {
            match read_string(p, 0) {
                None => Err(FrameError::Payload),
                Some((name, c0)) => {
                    match read_u32s(p, c0, 9) {
                        None => Err(FrameError::Payload),
                        Some((xs, c1)) => {
                            if c1 == p.len() {
                                Ok(
                                    Request::DrawLine {
                                        name,
                                        x1: xs[0],
                                        y1: xs[1],
                                        x2: xs[2],
                                        y2: xs[3],
                                        thickness: xs[4],
                                        r: xs[5],
                                        g: xs[6],
                                        b: xs[7],
                                        a: xs[8],
                                    },
                                )
                            } else {
                                Err(FrameError::Payload)
                            }
                        },
                    }
                },
            }
        },
        Command::Pan => {
            match read_u32(p, 0) {
                None => Err(FrameError::Payload),
                Some((x, c0)) => {
                    match read_u32(p, c0) {
                        None => Err(FrameError::Payload),
                        Some((y, _c1)) => Ok(Request::Pan { x, y }),
                    }
                },
            }
        },
        Command::Zoom => {
            match read_u32(p, 0) {
                None => Err(FrameError::Payload),
                Some((scale, c0)) => {
                    if c0 == p.len() {
                        Ok(Request::Zoom { scale })
                    } else {
                        Err(FrameError::Payload)
                    }
                },
            }
        },
        Command::ScreenToWorld => {
            match read_u32(p, 0) {
                None => Err(FrameError::Payload),
                Some((x, c0)) => {
                    match read_u32(p, c0) {
                        None => Err(FrameError::Payload),
                        Some((y, _c1)) => Ok(Request::ScreenToWorld { x, y }),
                    }
                },
            }
        },
        Command::GetLayers => Ok(Request::GetLayers),
        Command::DeleteLayer => {
            match read_string(p, 0) {
                None => Err(FrameError::Payload),
                Some((name, c0)) => {
                    if c0 == p.len() {
                        Ok(Request::DeleteLayer { name })
                    } else {
                        Err(FrameError::Payload)
                    }
                },
            }
        },
        Command::ShowLayer => {
            match read_string(p, 0) {
                None => Err(FrameError::Payload),
                Some((name, c0)) => {
                    if c0 == p.len() {
                        Ok(Request::ShowLayer { name })
                    } else {
                        Err(FrameError::Payload)
                    }
                },
            }
        },
        Command::HideLayer => {
            match read_string(p, 0) {
                None => Err(FrameError::Payload),
                Some((name, c0)) => {
                    if c0 == p.len() {
                        Ok(Request::HideLayer { name })
                    } else {
                        Err(FrameError::Payload)
                    }
                },
            }
        },
        Command::SetLayerPos => {
            match read_string(p, 0) {
                None => Err(FrameError::Payload),
                Some((name, c0)) => {
                    match read_u32(p, c0) {
                        None => Err(FrameError::Payload),
                        Some((x, c1)) => {
                            proof {
                                assert(p@.skip(c0 as int).skip((c1 - c0) as int) =~= p@.skip(
                                    c1 as int,
                                ));
                            }
                            match read_u32(p, c1) {
                                None => Err(FrameError::Payload),
                                Some((y, _c2)) => Ok(Request::SetLayerPos { name, x, y }),
                            }
                        },
                    }
                },
            }
        },
        Command::ScreenSize => Ok(Request::ScreenSize),
    }
}

// ---------------------------------------------------------------------------
// Outbound notifications.
//
// Input events are pushed to subscribers, best-effort and unacknowledged:
// a tag byte, then the event's fields. Pointer coordinates are world
// coordinates: the dispatcher transforms them before they leave.
// ---------------------------------------------------------------------------

/// The closed set of notification tags.
#[derive(Clone, Copy, Debug, PartialEq, Eq, Structural)]
pub enum PubEvent {
    KeyDown,
    MouseMotion,
    MouseWheel,
    MouseButtonDown,
    MouseButtonUp,
}

/// The tag byte each notification travels under.
pub open spec fn spec_pub_event_tag(e: PubEvent) -> u8 {
    match e {
        PubEvent::KeyDown => 0,
        PubEvent::MouseMotion => 1,
        PubEvent::MouseWheel => 2,
        PubEvent::MouseButtonDown => 3,
        PubEvent::MouseButtonUp => 4,
    }
}

impl PubEvent {
    /// The tag byte of this notification.
    pub fn to_u8(self) -> (r: u8)
        ensures
            r == spec_pub_event_tag(self),
    {
        match self {
            PubEvent::KeyDown => 0,
            PubEvent::MouseMotion => 1,
            PubEvent::MouseWheel => 2,
            PubEvent::MouseButtonDown => 3,
            PubEvent::MouseButtonUp => 4,
        }
    }
}

/// The bytes of the modifier name `"shift"`.
pub open spec fn shift_bytes() -> Seq<u8> {
    seq![0x73u8, 0x68u8, 0x69u8, 0x66u8, 0x74u8]
}

/// The bytes of the modifier name `"ctrl"`.
pub open spec fn ctrl_bytes() -> Seq<u8> {
    seq![0x63u8, 0x74u8, 0x72u8, 0x6Cu8]
}

/// The bytes of the modifier name `"alt"`.
pub open spec fn alt_bytes() -> Seq<u8> {
    seq![0x61u8, 0x6Cu8, 0x74u8]
}

/// The bytes of the modifier name `"logo"`.
pub open spec fn logo_bytes() -> Seq<u8> {
    seq![0x6Cu8, 0x6Fu8, 0x67u8, 0x6Fu8]
}

/// The modifier names a key event carries, in the fixed order shift,
/// ctrl, alt, logo, keeping only the held ones.
pub open spec fn mods_list(shift: bool, ctrl: bool, alt: bool, logo: bool) -> Seq<Seq<u8>> {
    (if shift {
        seq![shift_bytes()]
    } else {
        Seq::<Seq<u8>>::empty()
    }) + (if ctrl {
        seq![ctrl_bytes()]
    } else {
        Seq::<Seq<u8>>::empty()
    }) + (if alt {
        seq![alt_bytes()]
    } else {
        Seq::<Seq<u8>>::empty()
    }) + (if logo {
        seq![logo_bytes()]
    } else {
        Seq::<Seq<u8>>::empty()
    })
}

/// A key-down notification: the key's name, the held modifiers, and the
/// repeat flag.
pub open spec fn key_down_enc(key: Seq<u8>, mods: Seq<Seq<u8>>, repeat: bool) -> Seq<u8> {
    seq![0u8] + str_enc(key) + names_enc(mods) + bool_enc(repeat)
}

/// A pointer-motion notification carrying world coordinates.
pub open spec fn mouse_motion_enc(x: u32, y: u32) -> Seq<u8> {
    seq![1u8] + u32_le(x) + u32_le(y)
}

/// A wheel notification carrying the raw wheel delta.
pub open spec fn mouse_wheel_enc(x: u32, y: u32) -> Seq<u8> {
    seq![2u8] + u32_le(x) + u32_le(y)
}

/// A button notification: down or up, the button's identity, and world
/// coordinates.
pub open spec fn mouse_button_enc(down: bool, button: u8, x: u32, y: u32) -> Seq<u8> {
    seq![if down { 3u8 } else { 4u8 }, button] + u32_le(x) + u32_le(y)
}

fn shift_name() -> (r: Vec<u8>)
    ensures
        r@ == shift_bytes(),
{
    let mut v: Vec<u8> = Vec::new();
    v.push(0x73);
    v.push(0x68);
    v.push(0x69);
    v.push(0x66);
    v.push(0x74);
    proof {
        assert(v@ =~= shift_bytes());
    }
    v
}

fn ctrl_name() -> (r: Vec<u8>)
    ensures
        r@ == ctrl_bytes(),
{
    let mut v: Vec<u8> = Vec::new();
    v.push(0x63);
    v.push(0x74);
    v.push(0x72);
    v.push(0x6C);
    proof {
        assert(v@ =~= ctrl_bytes());
    }
    v
}

fn alt_name() -> (r: Vec<u8>)
    ensures
        r@ == alt_bytes(),
{
    let mut v: Vec<u8> = Vec::new();
    v.push(0x61);
    v.push(0x6C);
    v.push(0x74);
    proof {
        assert(v@ =~= alt_bytes());
    }
    v
}

fn logo_name() -> (r: Vec<u8>)
    ensures
        r@ == logo_bytes(),
{
    let mut v: Vec<u8> = Vec::new();
    v.push(0x6C);
    v.push(0x6F);
    v.push(0x67);
    v.push(0x6F);
    proof {
        assert(v@ =~= logo_bytes());
    }
    v
}

/// Encodes a key-down notification from the key's name and the modifier
/// flags.
pub fn encode_key_down(key: &Vec<u8>, shift: bool, ctrl: bool, alt: bool, logo: bool, repeat: bool) -> (r: Vec<u8>)
    ensures
        r@ == key_down_enc(key@, mods_list(shift, ctrl, alt, logo), repeat),
{
    let mut mods: Vec<Vec<u8>> = Vec::new();
    if shift {
        mods.push(shift_name());
    }
    let ghost m1: Seq<Seq<u8>> = names_view(mods@);
    if ctrl {
        mods.push(ctrl_name());
    }
    let ghost m2: Seq<Seq<u8>> = names_view(mods@);
    if alt {
        mods.push(alt_name());
    }
    let ghost m3: Seq<Seq<u8>> = names_view(mods@);
    if logo {
        mods.push(logo_name());
    }
    proof {
        assert(m1 =~= (if shift {
            seq![shift_bytes()]
        } else {
            Seq::<Seq<u8>>::empty()
        }));
        assert(m2 =~= m1 + (if ctrl {
            seq![ctrl_bytes()]
        } else {
            Seq::<Seq<u8>>::empty()
        }));
        assert(m3 =~= m2 + (if alt {
            seq![alt_bytes()]
        } else {
            Seq::<Seq<u8>>::empty()
        }));
        assert(names_view(mods@) =~= m3 + (if logo {
            seq![logo_bytes()]
        } else {
            Seq::<Seq<u8>>::empty()
        }));
        assert(names_view(mods@) =~= mods_list(shift, ctrl, alt, logo));
    }
    let mut out: Vec<u8> = Vec::new();
    out.push(PubEvent::KeyDown.to_u8());
    write_str_bytes(&mut out, key);
    write_names(&mut out, &mods);
    write_bool(&mut out, repeat);
    proof {
        assert(out@ =~= key_down_enc(key@, mods_list(shift, ctrl, alt, logo), repeat));
    }
    out
}

/// Encodes a pointer-motion notification from world coordinates.
pub fn encode_mouse_motion(x: u32, y: u32) -> (r: Vec<u8>)
    ensures
        r@ == mouse_motion_enc(x, y),
{
    let mut out: Vec<u8> = Vec::new();
    out.push(PubEvent::MouseMotion.to_u8());
    write_u32_le(&mut out, x);
    write_u32_le(&mut out, y);
    proof {
        assert(out@ =~= mouse_motion_enc(x, y));
    }
    out
}

/// Encodes a wheel notification from the raw wheel delta.
pub fn encode_mouse_wheel(x: u32, y: u32) -> (r: Vec<u8>)
    ensures
        r@ == mouse_wheel_enc(x, y),
{
    let mut out: Vec<u8> = Vec::new();
    out.push(PubEvent::MouseWheel.to_u8());
    write_u32_le(&mut out, x);
    write_u32_le(&mut out, y);
    proof {
        assert(out@ =~= mouse_wheel_enc(x, y));
    }
    out
}

/// Encodes a button notification from the button's identity and world
/// coordinates.
pub fn encode_mouse_button(down: bool, button: u8, x: u32, y: u32) -> (r: Vec<u8>)
    ensures
        r@ == mouse_button_enc(down, button, x, y),
{
    let mut out: Vec<u8> = Vec::new();
    out.push(
        if down {
            PubEvent::MouseButtonDown
        } else {
            PubEvent::MouseButtonUp
        }.to_u8(),
    );
    out.push(button);
    write_u32_le(&mut out, x);
    write_u32_le(&mut out, y);
    proof {
        assert(out@ =~= mouse_button_enc(down, button, x, y));
    }
    out
}

} // verus!
