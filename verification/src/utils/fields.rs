//! Reading several fields one after another.
use vstd::prelude::*;

use crate::utils::{CodecError, PacketCodec};

verus! {

/// What reading an `A` and then a `B` from the front of `s` gives.
pub open spec fn dec2<A: PacketCodec, B: PacketCodec>(s: Seq<u8>) -> Result<
    ((A::Model, B::Model), Seq<u8>),
    CodecError,
> {
    match A::spec_decode(s) {
        Err(e) => Err(e),
        Ok((a, r)) => match B::spec_decode(r) {
            Err(e) => Err(e),
            Ok((b, r2)) => Ok(((a, b), r2)),
        },
    }
}

/// What reading an `A`, a `B` and a `C` from the front of `s` gives.
pub open spec fn dec3<A: PacketCodec, B: PacketCodec, C: PacketCodec>(s: Seq<u8>) -> Result<
    ((A::Model, B::Model, C::Model), Seq<u8>),
    CodecError,
> {
    match A::spec_decode(s) {
        Err(e) => Err(e),
        Ok((a, r)) => match dec2::<B, C>(r) {
            Err(e) => Err(e),
            Ok(((b, c), r2)) => Ok(((a, b, c), r2)),
        },
    }
}

/// What reading four fields of the given types from the front of `s` gives.
pub open spec fn dec4<A: PacketCodec, B: PacketCodec, C: PacketCodec, D: PacketCodec>(
    s: Seq<u8>,
) -> Result<((A::Model, B::Model, C::Model, D::Model), Seq<u8>), CodecError> {
    match A::spec_decode(s) {
        Err(e) => Err(e),
        Ok((a, r)) => match dec3::<B, C, D>(r) {
            Err(e) => Err(e),
            Ok(((b, c, d), r2)) => Ok(((a, b, c, d), r2)),
        },
    }
}

/// What reading five fields of the given types from the front of `s` gives.
pub open spec fn dec5<A: PacketCodec, B: PacketCodec, C: PacketCodec, D: PacketCodec, E: PacketCodec>(
    s: Seq<u8>,
) -> Result<((A::Model, B::Model, C::Model, D::Model, E::Model), Seq<u8>), CodecError> {
    match A::spec_decode(s) {
        Err(e) => Err(e),
        Ok((a, r)) => match dec4::<B, C, D, E>(r) {
            Err(e) => Err(e),
            Ok(((b, c, d, x), r2)) => Ok(((a, b, c, d, x), r2)),
        },
    }
}

/// What is left of `s` when reading an `A` and then a `B` fails: what the
/// failing read leaves.
pub open spec fn dec2_left<A: PacketCodec, B: PacketCodec>(s: Seq<u8>) -> Seq<u8> {
    match A::spec_decode(s) {
        Err(_) => A::spec_decode_left(s),
        Ok((_, r)) => B::spec_decode_left(r),
    }
}

/// What is left of `s` when reading three fields fails.
pub open spec fn dec3_left<A: PacketCodec, B: PacketCodec, C: PacketCodec>(s: Seq<u8>) -> Seq<u8> {
    match A::spec_decode(s) {
        Err(_) => A::spec_decode_left(s),
        Ok((_, r)) => dec2_left::<B, C>(r),
    }
}

/// What is left of `s` when reading four fields fails.
pub open spec fn dec4_left<A: PacketCodec, B: PacketCodec, C: PacketCodec, D: PacketCodec>(
    s: Seq<u8>,
) -> Seq<u8> {
    match A::spec_decode(s) {
        Err(_) => A::spec_decode_left(s),
        Ok((_, r)) => dec3_left::<B, C, D>(r),
    }
}

/// What is left of `s` when reading five fields fails.
pub open spec fn dec5_left<A: PacketCodec, B: PacketCodec, C: PacketCodec, D: PacketCodec, E: PacketCodec>(
    s: Seq<u8>,
) -> Seq<u8> {
    match A::spec_decode(s) {
        Err(_) => A::spec_decode_left(s),
        Ok((_, r)) => dec4_left::<B, C, D, E>(r),
    }
}

/// Two valid fields written one after the other read back.
pub proof fn lemma_dec2_roundtrip<A: PacketCodec, B: PacketCodec>(
    a: A::Model,
    b: B::Model,
    rest: Seq<u8>,
)
    requires
        A::spec_valid(a),
        B::spec_valid(b),
    ensures
        dec2::<A, B>(A::spec_encode(a) + B::spec_encode(b) + rest) == Ok::<
            ((A::Model, B::Model), Seq<u8>),
            CodecError,
        >(((a, b), rest)),
{
    B::lemma_roundtrip(b, rest);
    A::lemma_roundtrip(a, B::spec_encode(b) + rest);
    assert(A::spec_encode(a) + B::spec_encode(b) + rest =~= A::spec_encode(a) + (B::spec_encode(b)
        + rest));
}

/// Three valid fields written one after the other read back.
pub proof fn lemma_dec3_roundtrip<A: PacketCodec, B: PacketCodec, C: PacketCodec>(
    a: A::Model,
    b: B::Model,
    c: C::Model,
    rest: Seq<u8>,
)
    requires
        A::spec_valid(a),
        B::spec_valid(b),
        C::spec_valid(c),
    ensures
        dec3::<A, B, C>(A::spec_encode(a) + B::spec_encode(b) + C::spec_encode(c) + rest) == Ok::<
            ((A::Model, B::Model, C::Model), Seq<u8>),
            CodecError,
        >(((a, b, c), rest)),
{
    lemma_dec2_roundtrip::<B, C>(b, c, rest);
    A::lemma_roundtrip(a, B::spec_encode(b) + C::spec_encode(c) + rest);
    assert(A::spec_encode(a) + B::spec_encode(b) + C::spec_encode(c) + rest =~= A::spec_encode(a)
        + (B::spec_encode(b) + C::spec_encode(c) + rest));
}

/// Four valid fields written one after the other read back.
pub proof fn lemma_dec4_roundtrip<A: PacketCodec, B: PacketCodec, C: PacketCodec, D: PacketCodec>(
    a: A::Model,
    b: B::Model,
    c: C::Model,
    d: D::Model,
    rest: Seq<u8>,
)
    requires
        A::spec_valid(a),
        B::spec_valid(b),
        C::spec_valid(c),
        D::spec_valid(d),
    ensures
        dec4::<A, B, C, D>(A::spec_encode(a) + B::spec_encode(b) + C::spec_encode(c) + D::spec_encode(d)
            + rest) == Ok::<((A::Model, B::Model, C::Model, D::Model), Seq<u8>), CodecError>(
            ((a, b, c, d), rest),
        ),
{
    let tail = B::spec_encode(b) + C::spec_encode(c) + D::spec_encode(d) + rest;
    lemma_dec3_roundtrip::<B, C, D>(b, c, d, rest);
    A::lemma_roundtrip(a, tail);
    assert(A::spec_encode(a) + B::spec_encode(b) + C::spec_encode(c) + D::spec_encode(d) + rest
        =~= A::spec_encode(a) + tail);
}

/// Five valid fields written one after the other read back.
pub proof fn lemma_dec5_roundtrip<
    A: PacketCodec,
    B: PacketCodec,
    C: PacketCodec,
    D: PacketCodec,
    E: PacketCodec,
>(a: A::Model, b: B::Model, c: C::Model, d: D::Model, e: E::Model, rest: Seq<u8>)
    requires
        A::spec_valid(a),
        B::spec_valid(b),
        C::spec_valid(c),
        D::spec_valid(d),
        E::spec_valid(e),
    ensures
        dec5::<A, B, C, D, E>(A::spec_encode(a) + B::spec_encode(b) + C::spec_encode(c)
            + D::spec_encode(d) + E::spec_encode(e) + rest) == Ok::<
            ((A::Model, B::Model, C::Model, D::Model, E::Model), Seq<u8>),
            CodecError,
        >(((a, b, c, d, e), rest)),
{
    let tail = B::spec_encode(b) + C::spec_encode(c) + D::spec_encode(d) + E::spec_encode(e) + rest;
    lemma_dec4_roundtrip::<B, C, D, E>(b, c, d, e, rest);
    A::lemma_roundtrip(a, tail);
    assert(A::spec_encode(a) + B::spec_encode(b) + C::spec_encode(c) + D::spec_encode(d)
        + E::spec_encode(e) + rest =~= A::spec_encode(a) + tail);
}

} // verus!
