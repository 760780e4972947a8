//! Reading the protobuf wire format.

use vstd::prelude::*;
use vstd::utf8::{decode_utf8, valid_utf8};

use crate::text::{trim, trimmed};

verus! {

/// 128 to the power `n`.
pub open spec fn pow128(n: nat) -> nat
    decreases n,
{
    if n == 0 {
        1
    } else {
        128 * pow128((n - 1) as nat)
    }
}

/// The number that groups of seven bits spell, lowest group first.
pub open spec fn groups_value(bytes: Seq<u8>) -> nat
    decreases bytes.len(),
{
    if bytes.len() == 0 {
        0
    } else {
        groups_value(bytes.drop_last()) + (bytes.last() % 128) as nat * pow128(
            (bytes.len() - 1) as nat,
        )
    }
}

/// How many bytes the variable-length integer at `pos` takes: up to and with
/// the first byte below 128, ten at most.
pub open spec fn varint_len(bytes: Seq<u8>, pos: int, taken: nat) -> Option<nat>
    decreases 10 - taken,
{
    if taken >= 10 || pos < 0 || pos + taken >= bytes.len() {
        None
    } else if bytes[pos + taken] < 128 {
        Some(taken + 1)
    } else {
        varint_len(bytes, pos, taken + 1)
    }
}

/// The variable-length integer at `pos`, modulo 2^64, and the position after it.
pub open spec fn varint_at(bytes: Seq<u8>, pos: int) -> Option<(u64, int)> {
    match varint_len(bytes, pos, 0) {
        Some(n) => Some(
            (
                (groups_value(bytes.subrange(pos, pos + n)) % 0x1_0000_0000_0000_0000) as u64,
                pos + n,
            ),
        ),
        None => None,
    }
}

/// Where reading a variable-length integer at `pos` ends: behind the integer;
/// where there is none, behind the tenth byte or at the end of the bytes.
pub open spec fn varint_stop(bytes: Seq<u8>, pos: int) -> int {
    match varint_len(bytes, pos, 0) {
        Some(n) => pos + n,
        None => if pos + 10 < bytes.len() {
            pos + 10
        } else {
            bytes.len() as int
        },
    }
}

/// Reading on from `at` with `taken` groups read, which spell `low`: what is
/// read, and where reading ends.
pub open spec fn scanned_varint(bytes: Seq<u8>, at: int, taken: nat, low: nat) -> (Option<u64>, int)
    decreases 10 - taken,
{
    if taken >= 10 || at < 0 || at >= bytes.len() {
        (None, at)
    } else {
        let sum = low + (bytes[at] % 128) as nat * pow128(taken);
        if bytes[at] < 128 {
            (Some((sum % 0x1_0000_0000_0000_0000) as u64), at + 1)
        } else {
            scanned_varint(bytes, at + 1, taken + 1, sum)
        }
    }
}

pub proof fn lemma_varint_len(bytes: Seq<u8>, pos: int, taken: nat)
    requires
        0 <= pos,
        taken < 10,
    ensures
        varint_len(bytes, pos, taken) matches Some(n) ==> taken < n <= 10 && pos + n <= bytes.len(),
    decreases 10 - taken,
{
    reveal_with_fuel(varint_len, 2);
    if pos + taken < bytes.len() && bytes[pos + taken] >= 128 && taken + 1 < 10 {
        lemma_varint_len(bytes, pos, taken + 1);
    }
}

proof fn lemma_pow128()
    ensures
        pow128(0) == 1,
        pow128(1) == 0x80,
        pow128(2) == 0x4000,
        pow128(3) == 0x20_0000,
        pow128(4) == 0x1000_0000,
        pow128(5) == 0x8_0000_0000,
        pow128(6) == 0x400_0000_0000,
        pow128(7) == 0x2_0000_0000_0000,
        pow128(8) == 0x100_0000_0000_0000,
        pow128(9) == 0x8000_0000_0000_0000,
{
    reveal_with_fuel(pow128, 10);
}

/// Putting seven more bits in front of a number keeps the number.
proof fn lemma_or_is_sum(low: u64, group: u64, taken: nat, shift: u32)
    requires
        taken < 10,
        shift == 7 * taken,
        group < 128,
        low < pow128(taken),
    ensures
        (low | (group << shift)) == (low + group * pow128(taken)) % 0x1_0000_0000_0000_0000,
        taken < 9 ==> (low | (group << shift)) == low + group * pow128(taken),
        taken < 9 ==> low + group * pow128(taken) < pow128(taken + 1),
{
    lemma_pow128();
    let weight = pow128(taken);
    if taken == 0 {
        assert(group * weight == group * 1) by (nonlinear_arith)
            requires
                weight == 1,
        ;
        assert(low | (group << 0u32) == group) by (bit_vector)
            requires
                low < 1,
                group < 128,
        ;
    } else if taken == 1 {
        assert(group * weight == group * 0x80) by (nonlinear_arith)
            requires
                weight == 0x80,
        ;
        assert(low | (group << 7u32) == low + group * 0x80) by (bit_vector)
            requires
                low < 0x80,
                group < 128,
        ;
    } else if taken == 2 {
        assert(group * weight == group * 0x4000) by (nonlinear_arith)
            requires
                weight == 0x4000,
        ;
        assert(low | (group << 14u32) == low + group * 0x4000) by (bit_vector)
            requires
                low < 0x4000,
                group < 128,
        ;
    } else if taken == 3 {
        assert(group * weight == group * 0x20_0000) by (nonlinear_arith)
            requires
                weight == 0x20_0000,
        ;
        assert(low | (group << 21u32) == low + group * 0x20_0000) by (bit_vector)
            requires
                low < 0x20_0000,
                group < 128,
        ;
    } else if taken == 4 {
        assert(group * weight == group * 0x1000_0000) by (nonlinear_arith)
            requires
                weight == 0x1000_0000,
        ;
        assert(low | (group << 28u32) == low + group * 0x1000_0000) by (bit_vector)
            requires
                low < 0x1000_0000,
                group < 128,
        ;
    } else if taken == 5 {
        assert(group * weight == group * 0x8_0000_0000) by (nonlinear_arith)
            requires
                weight == 0x8_0000_0000,
        ;
        assert(low | (group << 35u32) == low + group * 0x8_0000_0000) by (bit_vector)
            requires
                low < 0x8_0000_0000,
                group < 128,
        ;
    } else if taken == 6 {
        assert(group * weight == group * 0x400_0000_0000) by (nonlinear_arith)
            requires
                weight == 0x400_0000_0000,
        ;
        assert(low | (group << 42u32) == low + group * 0x400_0000_0000) by (bit_vector)
            requires
                low < 0x400_0000_0000,
                group < 128,
        ;
    } else if taken == 7 {
        assert(group * weight == group * 0x2_0000_0000_0000) by (nonlinear_arith)
            requires
                weight == 0x2_0000_0000_0000,
        ;
        assert(low | (group << 49u32) == low + group * 0x2_0000_0000_0000) by (bit_vector)
            requires
                low < 0x2_0000_0000_0000,
                group < 128,
        ;
    } else if taken == 8 {
        assert(group * weight == group * 0x100_0000_0000_0000) by (nonlinear_arith)
            requires
                weight == 0x100_0000_0000_0000,
        ;
        assert(low | (group << 56u32) == low + group * 0x100_0000_0000_0000) by (bit_vector)
            requires
                low < 0x100_0000_0000_0000,
                group < 128,
        ;
    } else {
        assert(group * weight == group * 0x8000_0000_0000_0000) by (nonlinear_arith)
            requires
                weight == 0x8000_0000_0000_0000,
        ;
        assert(low | (group << 63u32) == low + (group % 2) * 0x8000_0000_0000_0000) by (bit_vector)
            requires
                low < 0x8000_0000_0000_0000,
                group < 128,
        ;
        assert((low + group * 0x8000_0000_0000_0000) % 0x1_0000_0000_0000_0000 == low + (group % 2)
            * 0x8000_0000_0000_0000) by {
            let half = (group / 2) as int;
            assert(group == 2 * half + group % 2);
            assert(low + group * 0x8000_0000_0000_0000 == half * 0x1_0000_0000_0000_0000 + (low + (
            group % 2) * 0x8000_0000_0000_0000));
            assert((half * 0x1_0000_0000_0000_0000 + (low + (group % 2) * 0x8000_0000_0000_0000))
                % 0x1_0000_0000_0000_0000 == low + (group % 2) * 0x8000_0000_0000_0000)
                by (nonlinear_arith)
                requires
                    0 <= low + (group % 2) * 0x8000_0000_0000_0000 < 0x1_0000_0000_0000_0000,
            ;
        }
    }
}

/// A cursor into a message.
pub struct ProtoWireReader<'a> {
    pub buf: &'a [u8],
    pub pos: usize,
}

/// The value of one field.
#[derive(Clone, Copy)]
pub enum ProtoWire<'a> {
    Varint(u64),
    Fixed64(u64),
    Len(&'a [u8]),
    Fixed32,
}

/// What a `ProtoWire` says.
pub enum WireView {
    Varint(u64),
    Fixed64(u64),
    Len(Seq<u8>),
    Fixed32,
}

impl<'a> View for ProtoWire<'a> {
    type V = WireView;

    open spec fn view(&self) -> WireView {
        match *self {
            ProtoWire::Varint(value) => WireView::Varint(value),
            ProtoWire::Fixed64(value) => WireView::Fixed64(value),
            ProtoWire::Len(bytes) => WireView::Len(bytes@),
            ProtoWire::Fixed32 => WireView::Fixed32,
        }
    }
}

/// One field: its number, its value, and the position after it.
pub struct FieldView {
    pub number: u64,
    pub value: WireView,
    pub end: int,
}

/// The number that eight bytes spell, lowest byte first.
pub open spec fn little_endian(bytes: Seq<u8>) -> nat
    decreases bytes.len(),
{
    if bytes.len() == 0 {
        0
    } else {
        bytes[0] as nat + 256 * little_endian(bytes.drop_first())
    }
}

/// The field at `pos`, where one stands there whole.
pub open spec fn field_at(bytes: Seq<u8>, pos: int) -> Option<FieldView> {
    match varint_at(bytes, pos) {
        None => None,
        Some((tag, after)) => {
            let number = tag / 8;
            if tag % 8 == 0 {
                match varint_at(bytes, after) {
                    Some((value, end)) => Some(
                        FieldView { number, value: WireView::Varint(value), end },
                    ),
                    None => None,
                }
            } else if tag % 8 == 1 {
                if after + 8 <= bytes.len() {
                    let value = little_endian(bytes.subrange(after, after + 8)) as u64;
                    Some(FieldView { number, value: WireView::Fixed64(value), end: after + 8 })
                } else {
                    None
                }
            } else if tag % 8 == 2 {
                match varint_at(bytes, after) {
                    Some((size, start)) => if start + size <= bytes.len() {
                        Some(
                            FieldView {
                                number,
                                value: WireView::Len(bytes.subrange(start, start + size)),
                                end: start + size,
                            },
                        )
                    } else {
                        None
                    },
                    None => None,
                }
            } else if tag % 8 == 5 {
                if after + 4 <= bytes.len() {
                    Some(FieldView { number, value: WireView::Fixed32, end: after + 4 })
                } else {
                    None
                }
            } else {
                None
            }
        },
    }
}

/// The fields from `pos` on, up to the first place where none stands.
pub open spec fn fields_from(bytes: Seq<u8>, pos: int) -> Seq<(u64, WireView)>
    decreases bytes.len() - pos,
{
    match field_at(bytes, pos) {
        Some(field) => if pos < field.end <= bytes.len() {
            seq![(field.number, field.value)] + fields_from(bytes, field.end)
        } else {
            Seq::empty()
        },
        None => Seq::empty(),
    }
}

/// The fields of a message.
pub open spec fn fields(bytes: Seq<u8>) -> Seq<(u64, WireView)> {
    fields_from(bytes, 0)
}

impl<'a> ProtoWireReader<'a> {
    pub open spec fn within(self) -> bool {
        self.pos <= self.buf@.len()
    }

    pub fn new(buf: &'a [u8]) -> (reader: ProtoWireReader<'a>)
        ensures
            reader.buf@ == buf@,
            reader.pos == 0,
            reader.within(),
    {
        ProtoWireReader { buf, pos: 0 }
    }

    /// Reads a variable-length integer. Where none stands at the cursor the
    /// cursor still moves, over the bytes that were looked at.
    pub fn read_varint(&mut self) -> (out: Option<u64>)
        requires
            old(self).within(),
        ensures
            final(self).buf == old(self).buf,
            final(self).within(),
            final(self).pos == varint_stop(old(self).buf@, old(self).pos as int),
            final(self).pos >= old(self).pos,
            match out {
                Some(value) => varint_at(old(self).buf@, old(self).pos as int) == Some(
                    (value, final(self).pos as int),
                ) && final(self).pos > old(self).pos,
                None => varint_at(old(self).buf@, old(self).pos as int) is None,
            },
    {
        let ghost bytes = self.buf@;
        let start: usize = self.pos;
        let mut result: u64 = 0;
        let mut shift: u32 = 0;
        let ghost mut taken: nat = 0;
        proof {
            lemma_pow128();
            assert(bytes.subrange(start as int, start as int) =~= Seq::<u8>::empty());
        }
        loop
            invariant
                self.buf == old(self).buf,
                bytes == self.buf@,
                start == old(self).pos,
                start + taken == self.pos,
                self.pos <= bytes.len(),
                taken < 10,
                shift == 7 * taken,
                varint_len(bytes, start as int, 0) == varint_len(bytes, start as int, taken),
                result == groups_value(bytes.subrange(start as int, self.pos as int)),
                result < pow128(taken),
            decreases 10 - taken,
        {
            if self.pos >= self.buf.len() {
                return None;
            }
            let byte: u8 = self.buf[self.pos];
            let group: u64 = (byte & 0x7f) as u64;
            proof {
                assert(byte & 0x7f == byte % 128) by (bit_vector);
                let grown = bytes.subrange(start as int, self.pos + 1);
                assert(grown.drop_last() =~= bytes.subrange(start as int, self.pos as int));
                assert(grown.last() == byte);
                lemma_or_is_sum(result, group, taken, shift);
            }
            self.pos = self.pos + 1;
            result = result | (group << shift);
            if byte & 0x80 == 0 {
                assert(byte & 0x80 == 0 ==> byte < 128) by (bit_vector);
                return Some(result);
            }
            proof {
                assert(byte & 0x80 != 0 ==> byte >= 128) by (bit_vector);
                taken = taken + 1;
            }
            shift = shift + 7;
            if shift >= 64 {
                return None;
            }
            assert(result < pow128(taken));
        }
    }

    /// Reads the next field.
    pub fn next_field(&mut self) -> (out: Option<(u64, ProtoWire<'a>)>)
        requires
            old(self).within(),
        ensures
            final(self).buf == old(self).buf,
            final(self).within(),
            match out {
                Some((number, wire)) => field_at(old(self).buf@, old(self).pos as int) == Some(
                    FieldView { number, value: wire@, end: final(self).pos as int },
                ) && final(self).pos > old(self).pos,
                None => field_at(old(self).buf@, old(self).pos as int) is None,
            },
    {
        let ghost bytes = self.buf@;
        let total: usize = self.buf.len();
        let tag: u64 = match self.read_varint() {
            Some(tag) => tag,
            None => {
                return None;
            },
        };
        let after: usize = self.pos;
        let number: u64 = tag / 8;
        let kind: u64 = tag % 8;
        if kind == 0 {
            match self.read_varint() {
                Some(value) => Some((number, ProtoWire::Varint(value))),
                None => None,
            }
        } else if kind == 1 {
            if total - after < 8 {
                return None;
            }
            let value: u64 = read_le64(self.buf, after);
            self.pos = after + 8;
            Some((number, ProtoWire::Fixed64(value)))
        } else if kind == 2 {
            let size: u64 = match self.read_varint() {
                Some(size) => size,
                None => {
                    return None;
                },
            };
            let start: usize = self.pos;
            if size > (total - start) as u64 {
                return None;
            }
            let end: usize = start + size as usize;
            self.pos = end;
            Some((number, ProtoWire::Len(vstd::slice::slice_subrange(self.buf, start, end))))
        } else if kind == 5 {
            if total - after < 4 {
                return None;
            }
            self.pos = after + 4;
            Some((number, ProtoWire::Fixed32))
        } else {
            None
        }
    }
}

/// Reads a variable-length integer at an offset, which moves over the bytes
/// that were looked at.
pub fn read_varint(bytes: &[u8], offset: &mut usize) -> (out: Option<u64>)
    ensures
        (out, *final(offset) as int) == scanned_varint(bytes@, *old(offset) as int, 0, 0),
{
    let mut value: u64 = 0;
    let mut shift: u32 = 0;
    let ghost start = *offset as int;
    let ghost mut taken: nat = 0;
    let ghost mut low: nat = 0;
    proof {
        lemma_pow128();
    }
    while *offset < bytes.len() && shift <= 63
        invariant
            start == *old(offset),
            taken <= 10,
            shift == 7 * taken,
            taken < 10 ==> value == low && low < pow128(taken),
            scanned_varint(bytes@, start, 0, 0) == scanned_varint(
                bytes@,
                *offset as int,
                taken,
                low,
            ),
        decreases 10 - taken,
    {
        let byte: u8 = bytes[*offset];
        let group: u64 = (byte & 0x7f) as u64;
        proof {
            assert(byte & 0x7f == byte % 128) by (bit_vector);
            lemma_or_is_sum(value, group, taken, shift);
        }
        *offset = *offset + 1;
        value = value | (group << shift);
        if byte & 0x80 == 0 {
            assert(byte & 0x80 == 0 ==> byte < 128) by (bit_vector);
            return Some(value);
        }
        proof {
            assert(byte & 0x80 != 0 ==> byte >= 128) by (bit_vector);
            low = low + group as nat * pow128(taken);
            taken = taken + 1;
        }
        shift = shift + 7;
    }
    None
}

proof fn lemma_scanned_varint(bytes: Seq<u8>, pos: int, taken: nat)
    requires
        0 <= pos,
        pos + taken <= bytes.len(),
        taken <= 10,
        varint_len(bytes, pos, 0) == varint_len(bytes, pos, taken),
    ensures
        scanned_varint(
            bytes,
            pos + taken,
            taken,
            groups_value(bytes.subrange(pos, pos + taken)),
        ) == (
            match varint_at(bytes, pos) {
                Some((value, _)) => Some(value),
                None => None,
            },
            varint_stop(bytes, pos),
        ),
    decreases 10 - taken,
{
    if taken < 10 && pos + taken < bytes.len() {
        let grown = bytes.subrange(pos, pos + taken + 1);
        assert(grown.drop_last() =~= bytes.subrange(pos, pos + taken));
        assert(grown.last() == bytes[pos + taken]);
        if bytes[pos + taken] >= 128 {
            lemma_scanned_varint(bytes, pos, taken + 1);
        }
    }
}

/// The two ways to read a variable-length integer agree on all bytes, cut off
/// and over-long ones too: they read the same, and end at the same place.
pub proof fn law_varint_decoders_agree(bytes: Seq<u8>, pos: int)
    requires
        0 <= pos <= bytes.len(),
    ensures
        scanned_varint(bytes, pos, 0, 0) == (
            match varint_at(bytes, pos) {
                Some((value, _)) => Some(value),
                None => None,
            },
            varint_stop(bytes, pos),
        ),
{
    assert(bytes.subrange(pos, pos) =~= Seq::<u8>::empty());
    lemma_scanned_varint(bytes, pos, 0);
}

/// The variable-length integer at a position, and the position after it.
pub fn read_varint_at(bytes: &[u8], pos: usize) -> (out: Option<(u64, usize)>)
    requires
        pos <= bytes@.len(),
    ensures
        match out {
            Some((value, next)) => varint_at(bytes@, pos as int) == Some((value, next as int)) && pos
                < next <= bytes@.len(),
            None => varint_at(bytes@, pos as int) is None,
        },
{
    let mut at: usize = pos;
    proof {
        law_varint_decoders_agree(bytes@, pos as int);
        lemma_varint_len(bytes@, pos as int, 0);
    }
    match read_varint(bytes, &mut at) {
        Some(value) => Some((value, at)),
        None => None,
    }
}

/// The 64-bit number at `at`, lowest byte first.
fn read_le64(buf: &[u8], at: usize) -> (value: u64)
    requires
        at + 8 <= buf@.len(),
    ensures
        value == little_endian(buf@.subrange(at as int, at + 8)),
{
    proof {
        let eight = buf@.subrange(at as int, at + 8);
        reveal_with_fuel(little_endian, 9);
        let tail = |n: int| eight.subrange(n, 8);
        assert(eight.drop_first() =~= tail(1));
        assert(tail(1).drop_first() =~= tail(2));
        assert(tail(2).drop_first() =~= tail(3));
        assert(tail(3).drop_first() =~= tail(4));
        assert(tail(4).drop_first() =~= tail(5));
        assert(tail(5).drop_first() =~= tail(6));
        assert(tail(6).drop_first() =~= tail(7));
        assert(tail(7).drop_first() =~= tail(8));
        assert(little_endian(tail(8)) == 0);
        assert(little_endian(tail(7)) == buf@[at + 7]);
        assert(little_endian(tail(6)) == buf@[at + 6] + 256 * little_endian(tail(7)));
        assert(little_endian(tail(5)) == buf@[at + 5] + 256 * little_endian(tail(6)));
        assert(little_endian(tail(4)) == buf@[at + 4] + 256 * little_endian(tail(5)));
        assert(little_endian(tail(3)) == buf@[at + 3] + 256 * little_endian(tail(4)));
        assert(little_endian(tail(2)) == buf@[at + 2] + 256 * little_endian(tail(3)));
        assert(little_endian(tail(1)) == buf@[at + 1] + 256 * little_endian(tail(2)));
        assert(little_endian(eight) == buf@[at as int] + 256 * little_endian(tail(1)));
    }
    buf[at] as u64 + 256 * (buf[at + 1] as u64 + 256 * (buf[at + 2] as u64 + 256 * (buf[at + 3] as u64
        + 256 * (buf[at + 4] as u64 + 256 * (buf[at + 5] as u64 + 256 * (buf[at + 6] as u64 + 256 * (
    buf[at + 7] as u64)))))))
}

/// The last variable-length integer of the given field.
pub open spec fn last_varint(found: Seq<(u64, WireView)>, number: u64) -> Option<u64>
    decreases found.len(),
{
    if found.len() == 0 {
        None
    } else if found.last().0 == number && found.last().1 is Varint {
        Some(found.last().1->Varint_0)
    } else {
        last_varint(found.drop_last(), number)
    }
}

/// The last byte string of the given field.
pub open spec fn last_bytes(found: Seq<(u64, WireView)>, number: u64) -> Option<Seq<u8>>
    decreases found.len(),
{
    if found.len() == 0 {
        None
    } else if found.last().0 == number && found.last().1 is Len {
        Some(found.last().1->Len_0)
    } else {
        last_bytes(found.drop_last(), number)
    }
}

/// The first byte string of the given field.
pub open spec fn first_bytes(found: Seq<(u64, WireView)>, number: u64) -> Option<Seq<u8>>
    decreases found.len(),
{
    if found.len() == 0 {
        None
    } else if found[0].0 == number && found[0].1 is Len {
        Some(found[0].1->Len_0)
    } else {
        first_bytes(found.drop_first(), number)
    }
}

/// The signed reading of 64 bits.
pub open spec fn as_signed(value: u64) -> int {
    if value >= 0x8000_0000_0000_0000 {
        value - 0x1_0000_0000_0000_0000
    } else {
        value as int
    }
}

pub fn to_signed(value: u64) -> (out: i64)
    ensures
        out == as_signed(value),
{
    if value >= 0x8000_0000_0000_0000 {
        let below: u64 = 0xffff_ffff_ffff_ffff - value;
        -1 - (below as i64)
    } else {
        value as i64
    }
}

/// Division that drops the fraction, toward zero.
pub open spec fn div_toward_zero(value: int, by: int) -> int {
    if value < 0 {
        -((-value) / by)
    } else {
        value / by
    }
}

/// Milliseconds of a timestamp message: seconds in field 1, nanoseconds in
/// field 2. Only seconds between the years 2001 and 2065 count as a timestamp.
pub open spec fn timestamp_ms(bytes: Seq<u8>) -> Option<i64> {
    match last_varint(fields(bytes), 1) {
        Some(seconds) => if 1_000_000_000 <= as_signed(seconds) <= 3_000_000_000 {
            let nanos = match last_varint(fields(bytes), 2) {
                Some(nanos) => as_signed(nanos),
                None => 0,
            };
            Some((as_signed(seconds) * 1000 + div_toward_zero(nanos, 1_000_000)) as i64)
        } else {
            None
        },
        None => None,
    }
}

/// What a run of fields says.
pub open spec fn field_views(found: Seq<(u64, ProtoWire)>) -> Seq<(u64, WireView)> {
    found.map_values(|field: (u64, ProtoWire)| (field.0, field.1@))
}

/// Reads the fields of a message.
pub fn read_fields<'a>(buf: &'a [u8]) -> (found: Vec<(u64, ProtoWire<'a>)>)
    ensures
        field_views(found@) == fields(buf@),
{
    let mut reader = ProtoWireReader::new(buf);
    let mut found: Vec<(u64, ProtoWire<'a>)> = Vec::new();
    assert(field_views(found@) =~= Seq::<(u64, WireView)>::empty());
    loop
        invariant_except_break
            field_views(found@) + fields_from(buf@, reader.pos as int) == fields(buf@),
        invariant
            reader.buf@ == buf@,
            reader.within(),
        ensures
            field_views(found@) == fields(buf@),
        decreases buf@.len() - reader.pos,
    {
        let ghost before = found@;
        let ghost at = reader.pos as int;
        match reader.next_field() {
            Some((number, wire)) => {
                found.push((number, wire));
                proof {
                    assert(field_views(found@) =~= field_views(before).push((number, wire@)));
                    assert(field_views(found@) + fields_from(buf@, reader.pos as int)
                        =~= field_views(before) + fields_from(buf@, at));
                }
            },
            None => {
                assert(field_views(found@) =~= fields(buf@));
                break ;
            },
        }
    }
    found
}

fn find_last_varint(found: &Vec<(u64, ProtoWire)>, number: u64) -> (out: Option<u64>)
    ensures
        out == last_varint(field_views(found@), number),
{
    let mut i: usize = found.len();
    let ghost views = field_views(found@);
    assert(views.take(i as int) =~= views);
    while i > 0
        invariant
            i <= found@.len(),
            views == field_views(found@),
            last_varint(views, number) == last_varint(views.take(i as int), number),
        decreases i,
    {
        i = i - 1;
        proof {
            assert(views.take(i + 1).drop_last() =~= views.take(i as int));
            assert(views.take(i + 1).last() == (found@[i as int].0, found@[i as int].1@));
        }
        if found[i].0 == number {
            match found[i].1 {
                ProtoWire::Varint(value) => {
                    return Some(value);
                },
                _ => {},
            }
        }
    }
    None
}

fn find_last_bytes<'a>(found: &Vec<(u64, ProtoWire<'a>)>, number: u64) -> (out: Option<&'a [u8]>)
    ensures
        match out {
            Some(bytes) => last_bytes(field_views(found@), number) == Some(bytes@),
            None => last_bytes(field_views(found@), number) is None,
        },
{
    let mut i: usize = found.len();
    let ghost views = field_views(found@);
    assert(views.take(i as int) =~= views);
    while i > 0
        invariant
            i <= found@.len(),
            views == field_views(found@),
            last_bytes(views, number) == last_bytes(views.take(i as int), number),
        decreases i,
    {
        i = i - 1;
        proof {
            assert(views.take(i + 1).drop_last() =~= views.take(i as int));
            assert(views.take(i + 1).last() == (found@[i as int].0, found@[i as int].1@));
        }
        if found[i].0 == number {
            match found[i].1 {
                ProtoWire::Len(bytes) => {
                    return Some(bytes);
                },
                _ => {},
            }
        }
    }
    None
}

fn find_first_bytes<'a>(found: &Vec<(u64, ProtoWire<'a>)>, number: u64) -> (out: Option<&'a [u8]>)
    ensures
        match out {
            Some(bytes) => first_bytes(field_views(found@), number) == Some(bytes@),
            None => first_bytes(field_views(found@), number) is None,
        },
{
    let mut i: usize = 0;
    let ghost views = field_views(found@);
    assert(views.skip(0) =~= views);
    while i < found.len()
        invariant
            i <= found@.len(),
            views == field_views(found@),
            first_bytes(views, number) == first_bytes(views.skip(i as int), number),
        decreases found@.len() - i,
    {
        proof {
            assert(views.skip(i as int).drop_first() =~= views.skip(i + 1));
            assert(views.skip(i as int)[0] == (found@[i as int].0, found@[i as int].1@));
        }
        if found[i].0 == number {
            match found[i].1 {
                ProtoWire::Len(bytes) => {
                    return Some(bytes);
                },
                _ => {},
            }
        }
        i = i + 1;
    }
    None
}

pub fn extract_proto_timestamp_ms(buf: &[u8]) -> (out: Option<i64>)
    ensures
        out == timestamp_ms(buf@),
{
    let found = read_fields(buf);
    let seconds: i64 = match find_last_varint(&found, 1) {
        Some(value) => to_signed(value),
        None => {
            return None;
        },
    };
    if seconds < 1_000_000_000 || seconds > 3_000_000_000 {
        return None;
    }
    let nanos: i64 = match find_last_varint(&found, 2) {
        Some(value) => to_signed(value),
        None => 0,
    };
    let millis: i64 = if nanos < 0 {
        if nanos == i64::MIN {
            -9_223_372_036_854i64
        } else {
            -((-nanos) / 1_000_000)
        }
    } else {
        nanos / 1_000_000
    };
    Some(seconds * 1000 + millis)
}

/// The first timestamp that one of the fields 1, 6 and 7 holds.
pub open spec fn step_timestamp(found: Seq<(u64, WireView)>) -> Option<i64>
    decreases found.len(),
{
    if found.len() == 0 {
        None
    } else {
        let (number, value) = found[0];
        if (number == 1 || number == 6 || number == 7) && value is Len && timestamp_ms(
            value->Len_0,
        ) is Some {
            timestamp_ms(value->Len_0)
        } else {
            step_timestamp(found.drop_first())
        }
    }
}

/// When a step was taken, by its metadata.
pub fn extract_step_timestamp_ms(metadata: &[u8]) -> (out: Option<i64>)
    ensures
        out == step_timestamp(fields(metadata@)),
{
    let found = read_fields(metadata);
    let ghost views = field_views(found@);
    let mut i: usize = 0;
    assert(views.skip(0) =~= views);
    while i < found.len()
        invariant
            i <= found@.len(),
            views == field_views(found@),
            views == fields(metadata@),
            step_timestamp(views) == step_timestamp(views.skip(i as int)),
        decreases found@.len() - i,
    {
        proof {
            assert(views.skip(i as int).drop_first() =~= views.skip(i + 1));
            assert(views.skip(i as int)[0] == (found@[i as int].0, found@[i as int].1@));
        }
        let number: u64 = found[i].0;
        if number == 1 || number == 6 || number == 7 {
            match found[i].1 {
                ProtoWire::Len(bytes) => {
                    let at = extract_proto_timestamp_ms(bytes);
                    if at.is_some() {
                        return at;
                    }
                },
                _ => {},
            }
        }
        i = i + 1;
    }
    None
}

/// `std::str::from_utf8`: the text that the bytes encode, where they are valid
/// UTF-8.
#[verifier::external_body]
fn text_from_utf8(bytes: &[u8]) -> (out: Option<String>)
    ensures
        match out {
            Some(text) => valid_utf8(bytes@) && text@ == decode_utf8(bytes@),
            None => !valid_utf8(bytes@),
        },
{
    std::str::from_utf8(bytes).ok().map(|text| text.to_owned())
}

/// The identifier that a byte string holds: its text without white space
/// around it, where it is UTF-8 and something is left.
pub open spec fn identifier(bytes: Seq<u8>) -> Option<Seq<char>> {
    if valid_utf8(bytes) && trim(decode_utf8(bytes)).len() > 0 {
        Some(trim(decode_utf8(bytes)))
    } else {
        None
    }
}

/// The last identifier of field 11.
pub open spec fn last_identifier(found: Seq<(u64, WireView)>) -> Option<Seq<char>>
    decreases found.len(),
{
    if found.len() == 0 {
        None
    } else if found.last().0 == 11 && found.last().1 is Len && identifier(
        found.last().1->Len_0,
    ) is Some {
        identifier(found.last().1->Len_0)
    } else {
        last_identifier(found.drop_last())
    }
}

fn find_last_identifier(found: &Vec<(u64, ProtoWire)>) -> (out: Option<String>)
    ensures
        crate::text::maybe_text(out) == last_identifier(field_views(found@)),
{
    let mut i: usize = found.len();
    let ghost views = field_views(found@);
    assert(views.take(i as int) =~= views);
    while i > 0
        invariant
            i <= found@.len(),
            views == field_views(found@),
            last_identifier(views) == last_identifier(views.take(i as int)),
        decreases i,
    {
        i = i - 1;
        proof {
            assert(views.take(i + 1).drop_last() =~= views.take(i as int));
            assert(views.take(i + 1).last() == (found@[i as int].0, found@[i as int].1@));
        }
        if found[i].0 == 11 {
            match found[i].1 {
                ProtoWire::Len(bytes) => {
                    match text_from_utf8(bytes) {
                        Some(text) => {
                            let id = trimmed(text.as_str());
                            if !id.as_str().is_empty() {
                                return Some(id);
                            }
                        },
                        None => {},
                    }
                },
                _ => {},
            }
        }
    }
    None
}

/// The variable-length integers that stand one after the other from `pos` on.
pub open spec fn varints_from(bytes: Seq<u8>, pos: int) -> Seq<int>
    decreases bytes.len() - pos,
{
    match varint_at(bytes, pos) {
        Some((value, end)) => if pos < end <= bytes.len() {
            seq![as_signed(value)] + varints_from(bytes, end)
        } else {
            Seq::empty()
        },
        None => Seq::empty(),
    }
}

pub open spec fn as_ints(values: Seq<i64>) -> Seq<int> {
    values.map_values(|value: i64| value as int)
}

fn read_varints(buf: &[u8]) -> (out: Vec<i64>)
    ensures
        as_ints(out@) == varints_from(buf@, 0),
{
    let mut reader = ProtoWireReader::new(buf);
    let mut out: Vec<i64> = Vec::new();
    assert(as_ints(out@) =~= Seq::<int>::empty());
    loop
        invariant_except_break
            as_ints(out@) + varints_from(buf@, reader.pos as int) == varints_from(buf@, 0),
        invariant
            reader.buf@ == buf@,
            reader.within(),
        ensures
            as_ints(out@) == varints_from(buf@, 0),
        decreases buf@.len() - reader.pos,
    {
        let ghost before = out@;
        let ghost at = reader.pos as int;
        match reader.read_varint() {
            Some(value) => {
                out.push(to_signed(value));
                proof {
                    assert(as_ints(out@) =~= as_ints(before).push(as_signed(value)));
                    assert(as_ints(out@) + varints_from(buf@, reader.pos as int) =~= as_ints(before)
                        + varints_from(buf@, at));
                }
            },
            None => {
                assert(as_ints(out@) =~= varints_from(buf@, 0));
                break ;
            },
        }
    }
    out
}

/// One turn of a conversation: the identifier by which repeated turns are
/// told, and the steps that it took.
pub struct TurnView {
    pub id: Option<Seq<char>>,
    pub steps: Seq<int>,
}

/// The usage message of a turn: field 4 of the chat message in field 1.
pub open spec fn turn_usage(blob: Seq<u8>) -> Option<Seq<u8>> {
    match last_bytes(fields(blob), 1) {
        Some(chat) => first_bytes(fields(chat), 4),
        None => None,
    }
}

/// A usage message that counts no token of any kind.
pub open spec fn counts_nothing(usage: Seq<(u64, WireView)>) -> bool {
    forall|number: u64|
        #![trigger last_varint(usage, number)]
        number == 1 || number == 2 || number == 5 || number == 9 || number == 10 ==> last_varint(
            usage,
            number,
        ) is None || last_varint(usage, number) == Some(0u64)
}

/// A turn is what has a usage message that counts some tokens.
pub open spec fn turn(blob: Seq<u8>) -> Option<TurnView> {
    match turn_usage(blob) {
        Some(usage) => if counts_nothing(fields(usage)) {
            None
        } else {
            Some(
                TurnView {
                    id: last_identifier(fields(usage)),
                    steps: match last_bytes(fields(blob), 2) {
                        Some(steps) => varints_from(steps, 0),
                        None => Seq::empty(),
                    },
                },
            )
        },
        None => None,
    }
}

fn is_zero(value: Option<u64>) -> (yes: bool)
    ensures
        yes == (value is None || value == Some(0u64)),
{
    match value {
        Some(count) => count == 0,
        None => true,
    }
}

pub fn parse_gen_metadata_turn(blob: &[u8]) -> (out: Option<(Option<String>, Vec<i64>)>)
    ensures
        match out {
            Some((id, steps)) => turn(blob@) == Some(
                (TurnView { id: crate::text::maybe_text(id), steps: as_ints(steps@) }),
            ),
            None => turn(blob@) is None,
        },
{
    let outer = read_fields(blob);
    let chat = match find_last_bytes(&outer, 1) {
        Some(bytes) => bytes,
        None => {
            return None;
        },
    };
    let inner = read_fields(chat);
    let usage = match find_first_bytes(&inner, 4) {
        Some(bytes) => bytes,
        None => {
            return None;
        },
    };
    let counts = read_fields(usage);
    if is_zero(find_last_varint(&counts, 1)) && is_zero(find_last_varint(&counts, 2)) && is_zero(
        find_last_varint(&counts, 9),
    ) && is_zero(find_last_varint(&counts, 5)) && is_zero(find_last_varint(&counts, 10)) {
        assert(counts_nothing(fields(usage@)));
        return None;
    }
    let id = find_last_identifier(&counts);
    let steps = match find_last_bytes(&outer, 2) {
        Some(bytes) => read_varints(bytes),
        None => Vec::new(),
    };
    assert(as_ints(Seq::<i64>::empty()) =~= Seq::<int>::empty());
    Some((id, steps))
}

/// A varint holds its lowest seven bits in its first byte: a byte below 128 is
/// a number of its own, and one from 128 on adds its seven bits to what the
/// bytes behind it hold, 128 times.
pub proof fn law_first_byte_holds_the_lowest_bits(bytes: Seq<u8>)
    requires
        bytes.len() > 0,
    ensures
        groups_value(bytes) == bytes[0] % 128 + 128 * groups_value(bytes.drop_first()),
    decreases bytes.len(),
{
    let rest = bytes.drop_first();
    if bytes.len() == 1 {
        assert(bytes.drop_last() =~= Seq::empty());
        assert(rest =~= Seq::empty());
        reveal_with_fuel(groups_value, 2);
        reveal_with_fuel(pow128, 2);
        assert((bytes[0] % 128) as nat * 1 == bytes[0] % 128);
    } else {
        let head = bytes.drop_last();
        law_first_byte_holds_the_lowest_bits(head);
        assert(head.drop_first() =~= rest.drop_last());
        assert(rest.last() == bytes.last());
        let top = (bytes.last() % 128) as nat;
        let scale = pow128((rest.len() - 1) as nat);
        assert(pow128((bytes.len() - 1) as nat) == 128 * scale);
        assert(top * (128 * scale) == 128 * (top * scale)) by (nonlinear_arith);
        assert(128 * (groups_value(rest.drop_last()) + top * scale) == 128 * groups_value(
            rest.drop_last(),
        ) + 128 * (top * scale)) by (nonlinear_arith);
    }
}

/// A byte below 128 is a whole varint.
pub proof fn law_small_numbers_take_one_byte(bytes: Seq<u8>, pos: int)
    requires
        0 <= pos < bytes.len(),
        bytes[pos] < 128,
    ensures
        varint_at(bytes, pos) == Some((bytes[pos] as u64, pos + 1)),
{
    let own = bytes.subrange(pos, pos + 1);
    law_first_byte_holds_the_lowest_bits(own);
    assert(own.drop_first() =~= Seq::empty());
    reveal_with_fuel(varint_len, 2);
}

/// A field is its number and its kind in one varint, the kind in the lowest
/// three bits, and behind it what that kind holds: a varint, eight bytes, a
/// length and as many bytes, or four bytes.
pub proof fn law_fields_are_tagged(bytes: Seq<u8>, pos: int, number: u64, kind: u64, after: int)
    requires
        number < 0x2000_0000_0000_0000,
        kind < 8,
        varint_at(bytes, pos) == Some(((number * 8 + kind) as u64, after)),
    ensures
        kind == 0 ==> match varint_at(bytes, after) {
            Some((value, end)) => field_at(bytes, pos) == Some(
                FieldView { number, value: WireView::Varint(value), end },
            ),
            None => field_at(bytes, pos) is None,
        },
        kind == 1 ==> (field_at(bytes, pos) is Some <==> after + 8 <= bytes.len()),
        kind == 1 && after + 8 <= bytes.len() ==> field_at(bytes, pos)->0.end == after + 8
            && field_at(bytes, pos)->0.number == number,
        kind == 2 ==> match varint_at(bytes, after) {
            Some((size, start)) => if start + size <= bytes.len() {
                field_at(bytes, pos) == Some(
                    FieldView {
                        number,
                        value: WireView::Len(bytes.subrange(start, start + size)),
                        end: start + size,
                    },
                )
            } else {
                field_at(bytes, pos) is None
            },
            None => field_at(bytes, pos) is None,
        },
        kind == 5 ==> (field_at(bytes, pos) is Some <==> after + 4 <= bytes.len()),
        kind == 5 && after + 4 <= bytes.len() ==> field_at(bytes, pos)->0.end == after + 4
            && field_at(bytes, pos)->0.number == number,
        kind == 3 || kind == 4 || kind == 6 || kind == 7 ==> field_at(bytes, pos) is None,
{
    let tag = (number * 8 + kind) as u64;
    assert(tag / 8 == number && tag % 8 == kind);
}

/// A moment is the whole seconds in the first field, between the years 2001 and
/// 2065, and the billionths of a second in the second; of each field the last
/// one counts.
pub proof fn law_moment_is_seconds_and_billionths(
    bytes: Seq<u8>,
    i: int,
    seconds: u64,
    j: int,
    nanos: u64,
)
    requires
        0 <= i < fields(bytes).len(),
        fields(bytes)[i] == (1u64, WireView::Varint(seconds)),
        forall|k: int|
            i < k < fields(bytes).len() ==> !((#[trigger] fields(bytes)[k]).0 == 1 && fields(
                bytes,
            )[k].1 is Varint),
        0 <= j < fields(bytes).len(),
        fields(bytes)[j] == (2u64, WireView::Varint(nanos)),
        forall|k: int|
            j < k < fields(bytes).len() ==> !((#[trigger] fields(bytes)[k]).0 == 2 && fields(
                bytes,
            )[k].1 is Varint),
        nanos < 1_000_000_000,
    ensures
        1_000_000_000 <= seconds <= 3_000_000_000 ==> timestamp_ms(bytes) == Some(
            (seconds * 1000 + nanos / 1_000_000) as i64,
        ),
        seconds < 1_000_000_000 || 3_000_000_000 < seconds ==> timestamp_ms(bytes) is None,
{
    lemma_last_varint(fields(bytes), 1, i, seconds);
    lemma_last_varint(fields(bytes), 2, j, nanos);
}

proof fn lemma_last_varint(found: Seq<(u64, WireView)>, number: u64, i: int, value: u64)
    requires
        0 <= i < found.len(),
        found[i] == (number, WireView::Varint(value)),
        forall|k: int|
            i < k < found.len() ==> !((#[trigger] found[k]).0 == number && found[k].1 is Varint),
    ensures
        last_varint(found, number) == Some(value),
    decreases found.len(),
{
    if i < found.len() - 1 {
        let rest = found.drop_last();
        assert(!(found[found.len() - 1].0 == number && found[found.len() - 1].1 is Varint));
        assert forall|k: int| i < k < rest.len() implies !((#[trigger] rest[k]).0 == number
            && rest[k].1 is Varint) by {
            assert(rest[k] == found[k]);
        }
        lemma_last_varint(rest, number, i, value);
    }
}

/// The moment of a step stands in the first of its fields one, six and seven
/// that holds one.
pub proof fn law_step_moment_stands_first(found: Seq<(u64, WireView)>, i: int)
    requires
        0 <= i < found.len(),
        found[i].0 == 1 || found[i].0 == 6 || found[i].0 == 7,
        found[i].1 is Len,
        timestamp_ms(found[i].1->Len_0) is Some,
        forall|k: int|
            0 <= k < i ==> ((#[trigger] found[k]).0 != 1 && found[k].0 != 6 && found[k].0 != 7)
                || !(found[k].1 is Len) || timestamp_ms(found[k].1->Len_0) is None,
    ensures
        step_timestamp(found) == timestamp_ms(found[i].1->Len_0),
    decreases i,
{
    if i > 0 {
        let rest = found.drop_first();
        assert((found[0].0 != 1 && found[0].0 != 6 && found[0].0 != 7) || !(found[0].1 is Len)
            || timestamp_ms(found[0].1->Len_0) is None);
        assert forall|k: int| 0 <= k < i - 1 implies ((#[trigger] rest[k]).0 != 1 && rest[k].0 != 6
            && rest[k].0 != 7) || !(rest[k].1 is Len) || timestamp_ms(rest[k].1->Len_0) is None by {
            assert(rest[k] == found[k + 1]);
        }
        law_step_moment_stands_first(rest, i - 1);
    }
}

/// Of several numbers under one field the last counts, and a field that holds no
/// number has none.
pub proof fn law_last_number_counts(found: Seq<(u64, WireView)>, number: u64, at: int)
    requires
        -1 <= at < found.len(),
        at >= 0 ==> found[at].0 == number && found[at].1 is Varint,
        forall|k: int|
            at < k < found.len() ==> (#[trigger] found[k]).0 != number || !(found[k].1 is Varint),
    ensures
        at >= 0 ==> last_varint(found, number) == Some(found[at].1->Varint_0),
        at == -1 ==> last_varint(found, number) is None,
    decreases found.len(),
{
    if found.len() > 0 && at < found.len() - 1 {
        let before = found.drop_last();
        assert(found.last() == found[found.len() - 1]);
        assert forall|k: int| at < k < before.len() implies (#[trigger] before[k]).0 != number || !(
        before[k].1 is Varint) by {
            assert(before[k] == found[k]);
        }
        law_last_number_counts(before, number, at);
    }
}

/// Of several parts under one field the last counts where the last is asked for.
pub proof fn law_last_part_counts(found: Seq<(u64, WireView)>, number: u64, at: int)
    requires
        -1 <= at < found.len(),
        at >= 0 ==> found[at].0 == number && found[at].1 is Len,
        forall|k: int|
            at < k < found.len() ==> (#[trigger] found[k]).0 != number || !(found[k].1 is Len),
    ensures
        at >= 0 ==> last_bytes(found, number) == Some(found[at].1->Len_0),
        at == -1 ==> last_bytes(found, number) is None,
    decreases found.len(),
{
    if found.len() > 0 && at < found.len() - 1 {
        let before = found.drop_last();
        assert(found.last() == found[found.len() - 1]);
        assert forall|k: int| at < k < before.len() implies (#[trigger] before[k]).0 != number || !(
        before[k].1 is Len) by {
            assert(before[k] == found[k]);
        }
        law_last_part_counts(before, number, at);
    }
}

/// Of several parts under one field the first counts where the first is asked for.
pub proof fn law_first_part_counts(found: Seq<(u64, WireView)>, number: u64, at: int)
    requires
        0 <= at <= found.len(),
        at < found.len() ==> found[at].0 == number && found[at].1 is Len,
        forall|k: int| 0 <= k < at ==> (#[trigger] found[k]).0 != number || !(found[k].1 is Len),
    ensures
        at < found.len() ==> first_bytes(found, number) == Some(found[at].1->Len_0),
        at == found.len() ==> first_bytes(found, number) is None,
    decreases at,
{
    if at > 0 {
        let rest = found.drop_first();
        assert(found[0].0 != number || !(found[0].1 is Len));
        assert forall|k: int| 0 <= k < at - 1 implies (#[trigger] rest[k]).0 != number || !(
        rest[k].1 is Len) by {
            assert(rest[k] == found[k + 1]);
        }
        law_first_part_counts(rest, number, at - 1);
    }
}

/// A number read with a sign fits the signed range and is the number that was
/// written, or two to the sixty-fourth less.
pub proof fn law_signed_numbers_wrap_around(value: u64)
    ensures
        i64::MIN <= as_signed(value) <= i64::MAX,
        as_signed(value) == value || as_signed(value) + 0x1_0000_0000_0000_0000 == value,
{
}

} // verus!
