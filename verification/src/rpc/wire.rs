//! Messages as sequences of tagged fields.

use vstd::prelude::*;
use vstd::slice::*;
use vstd::utf8::*;

use crate::text::text_from_utf8;

verus! {

/// A number in groups of seven bits, the lowest first, each but the last with its high bit set.
pub open spec fn varint_bytes(value: nat) -> Seq<u8>
    decreases value,
{
    if value < 128 {
        seq![value as u8]
    } else {
        seq![(value % 128 + 128) as u8] + varint_bytes(value / 128)
    }
}

/// The number at the front of `bytes`, after `seen` of its groups, with the number of bytes that it
/// takes. It has at most ten groups and fits in 64 bits.
pub open spec fn varint_at(bytes: Seq<u8>, seen: nat) -> Option<(nat, nat)>
    decreases 10 - seen,
{
    if seen >= 10 || bytes.len() == 0 {
        None
    } else if bytes[0] < 128 {
        if seen == 9 && bytes[0] >= 2 {
            None
        } else {
            Some((bytes[0] as nat, 1))
        }
    } else {
        match varint_at(bytes.drop_first(), seen + 1) {
            Some((high, used)) => Some(((bytes[0] - 128 + 128 * high) as nat, used + 1)),
            None => None,
        }
    }
}

/// What still fits in 64 bits above `seen` groups.
spec fn varint_limit(seen: nat) -> nat
    decreases 9 - seen,
{
    if seen >= 9 {
        2
    } else {
        128 * varint_limit(seen + 1)
    }
}

proof fn lemma_varint_limit()
    ensures
        varint_limit(0) == 0x1_0000_0000_0000_0000,
{
    reveal_with_fuel(varint_limit, 10);
}

proof fn lemma_varint_bounds(bytes: Seq<u8>, seen: nat)
    ensures
        varint_at(bytes, seen) matches Some((value, used)) ==> 0 < used <= bytes.len() && value
            < varint_limit(seen),
    decreases 10 - seen,
{
    if seen < 10 && bytes.len() > 0 {
        lemma_limit_is_large(seen);
        if bytes[0] >= 128 {
            lemma_varint_bounds(bytes.drop_first(), seen + 1);
        }
    }
}

proof fn lemma_limit_is_large(seen: nat)
    requires
        seen < 10,
    ensures
        seen < 9 ==> varint_limit(seen) >= 256,
        seen == 9 ==> varint_limit(seen) == 2,
    decreases 9 - seen,
{
    if seen < 9 {
        lemma_limit_is_large(seen + 1);
    }
}

/// What is read at the front of a written number is that number, whatever follows it.
pub proof fn written_numbers_read_back(value: u64, rest: Seq<u8>)
    ensures
        varint_at(varint_bytes(value as nat) + rest, 0) == Some(
            (value as nat, varint_bytes(value as nat).len()),
        ),
{
    lemma_varint_limit();
    lemma_varint_reads_back(value as nat, rest, 0);
}

proof fn lemma_varint_reads_back(value: nat, rest: Seq<u8>, seen: nat)
    requires
        seen < 10,
        value < varint_limit(seen),
    ensures
        varint_at(varint_bytes(value) + rest, seen) == Some((value, varint_bytes(value).len())),
    decreases value,
{
    let bytes = varint_bytes(value) + rest;
    if value < 128 {
        assert(bytes[0] == value as u8);
        assert(varint_bytes(value).len() == 1);
    } else {
        if seen == 9 {
            assert(varint_limit(9) == 2);
        }
        let first = (value % 128 + 128) as u8;
        assert(bytes[0] == first);
        assert(bytes.drop_first() =~= varint_bytes(value / 128) + rest);
        lemma_varint_reads_back(value / 128, rest, seen + 1);
        assert(first - 128 + 128 * (value / 128) == value);
    }
}

/// Reads a number: `prost::encoding::decode_varint`, which takes it off the front of the buffer.
#[verifier::external_body]
fn read_varint(bytes: &[u8]) -> (read: Option<(u64, &[u8])>)
    ensures
        (match read {
            Some((value, rest)) => varint_at(bytes@, 0) matches Some((number, used)) && value
                == number && rest@ == bytes@.skip(used as int),
            None => varint_at(bytes@, 0) is None,
        }),
{
    let mut rest = bytes;
    match prost::encoding::decode_varint(&mut rest) {
        Ok(value) => Some((value, rest)),
        Err(_) => None,
    }
}

/// Appends a number: `prost::encoding::encode_varint`.
#[verifier::external_body]
fn push_varint(out: &mut Vec<u8>, value: u64)
    ensures
        final(out)@ == old(out)@ + varint_bytes(value as nat),
{
    prost::encoding::encode_varint(value, out)
}

/// The tag, the wire type and the length of the key at the front of `bytes`. A key is a number: the
/// tag, which is not zero, above three bits for the wire type.
pub open spec fn key_at(bytes: Seq<u8>) -> Option<(u32, u8, nat)> {
    match varint_at(bytes, 0) {
        Some((key, used)) => if key <= u32::MAX && key % 8 <= 5 && key / 8 >= 1 {
            Some(((key / 8) as u32, (key % 8) as u8, used))
        } else {
            None
        },
        None => None,
    }
}

/// Reads a key: `prost::encoding::decode_key`, which takes it off the front of the buffer. The wire
/// type comes back as its number.
#[verifier::external_body]
fn read_key(bytes: &[u8]) -> (read: Option<(u32, u8, &[u8])>)
    ensures
        (match read {
            Some((tag, wire, rest)) => key_at(bytes@) matches Some((tag_read, wire_read, used))
                && tag == tag_read && wire == wire_read && rest@ == bytes@.skip(used as int),
            None => key_at(bytes@) is None,
        }),
{
    let mut rest = bytes;
    match prost::encoding::decode_key(&mut rest) {
        Ok((tag, wire)) => Some((tag, wire as u8, rest)),
        Err(_) => None,
    }
}

/// How a field that this library writes is laid out.
#[derive(Clone, Copy, PartialEq, Eq, Structural)]
pub enum FieldKind {
    Varint,
    LengthDelimited,
    StartGroup,
    EndGroup,
}

impl FieldKind {
    pub open spec fn wire(self) -> nat {
        match self {
            FieldKind::Varint => 0,
            FieldKind::LengthDelimited => 2,
            FieldKind::StartGroup => 3,
            FieldKind::EndGroup => 4,
        }
    }
}

/// Appends a key: `prost::encoding::encode_key`, which asks for a tag between one and 2^29 - 1.
#[verifier::external_body]
fn push_key(out: &mut Vec<u8>, tag: u32, kind: FieldKind)
    requires
        1 <= tag < 0x2000_0000,
    ensures
        final(out)@ == old(out)@ + varint_bytes(8 * (tag as nat) + kind.wire()),
{
    match kind {
        FieldKind::Varint => {
            prost::encoding::encode_key(tag, prost::encoding::WireType::Varint, out)
        },
        FieldKind::LengthDelimited => {
            prost::encoding::encode_key(tag, prost::encoding::WireType::LengthDelimited, out)
        },
        FieldKind::StartGroup => {
            prost::encoding::encode_key(tag, prost::encoding::WireType::StartGroup, out)
        },
        FieldKind::EndGroup => {
            prost::encoding::encode_key(tag, prost::encoding::WireType::EndGroup, out)
        },
    }
}

/// How many bytes of `bytes` the rest of a group with this tag takes, if it is well-formed.
pub uninterp spec fn group_end(tag: u32, bytes: Seq<u8>) -> Option<nat>;

/// How many bytes the content of an uninterpreted field takes that is neither a number nor
/// length-delimited.
pub open spec fn skipped_at(tag: u32, wire: u8, bytes: Seq<u8>) -> Option<nat> {
    if wire == 1 {
        if bytes.len() >= 8 {
            Some(8)
        } else {
            None
        }
    } else if wire == 5 {
        if bytes.len() >= 4 {
            Some(4)
        } else {
            None
        }
    } else if wire == 3 {
        group_end(tag, bytes)
    } else {
        None
    }
}

/// Skips the content of a field: `prost::encoding::skip_field` with a fresh context. A fixed field
/// takes four or eight bytes, an end of a group is an error. How long a group is, which may hold
/// further fields and groups, is left to the name; it ends within the buffer.
#[verifier::external_body]
fn skip_content(tag: u32, wire: u8, bytes: &[u8]) -> (left: Option<&[u8]>)
    requires
        wire == 1 || wire == 3 || wire == 4 || wire == 5,
    ensures
        (match left {
            Some(rest) => skipped_at(tag, wire, bytes@) matches Some(used) && used <= bytes@.len()
                && rest@ == bytes@.skip(used as int),
            None => skipped_at(tag, wire, bytes@) is None,
        }),
        (wire == 3 ==> (left is Some <==> group_end(tag, bytes@) is Some)),
{
    let mut rest = bytes;
    let context = prost::encoding::DecodeContext::default();
    match prost::encoding::WireType::try_from(u64::from(wire)) {
        Ok(kind) => match prost::encoding::skip_field(kind, tag, &mut rest, context) {
            Ok(()) => Some(rest),
            Err(_) => None,
        },
        Err(_) => None,
    }
}

/// A group as the only field of another one: its key, its content, and the end of the other.
pub open spec fn group_in_group(tag: u32, content: Seq<u8>) -> Seq<u8> {
    varint_bytes(8 * (tag as nat) + 3) + content + varint_bytes(12)
}

/// How many bytes the content of such a field takes in a message. Groups may be nested to a certain
/// depth, and a message that stands inside another one counts as one level, as if the group stood
/// inside another group.
pub open spec fn skipped_in(inside: bool, tag: u32, wire: u8, bytes: Seq<u8>) -> Option<nat> {
    match skipped_at(tag, wire, bytes) {
        Some(used) => if inside && wire == 3 && group_end(
            1,
            group_in_group(tag, bytes.take(used as int)),
        ) is None {
            None
        } else {
            Some(used)
        },
        None => None,
    }
}

fn skip_in(inside: bool, tag: u32, wire: u8, bytes: &[u8]) -> (left: Option<&[u8]>)
    requires
        1 <= tag < 0x2000_0000,
        wire == 1 || wire == 3 || wire == 4 || wire == 5,
    ensures
        match left {
            Some(rest) => skipped_in(inside, tag, wire, bytes@) matches Some(used) && used
                <= bytes@.len() && rest@ == bytes@.skip(used as int),
            None => skipped_in(inside, tag, wire, bytes@) is None,
        },
{
    let rest = match skip_content(tag, wire, bytes) {
        Some(rest) => rest,
        None => {
            return None;
        },
    };
    if inside && wire == 3 {
        let used: usize = bytes.len() - rest.len();
        let mut group: Vec<u8> = Vec::new();
        push_key(&mut group, tag, FieldKind::StartGroup);
        group.extend_from_slice(slice_subrange(bytes, 0, used));
        push_key(&mut group, 1, FieldKind::EndGroup);
        proof {
            assert(bytes@.subrange(0, used as int) =~= bytes@.take(used as int));
            assert(group@ =~= group_in_group(tag, bytes@.take(used as int)));
        }
        if skip_content(1, 3, group.as_slice()).is_none() {
            return None;
        }
    }
    Some(rest)
}

/// The content of a field.
pub enum WireValue {
    Varint(u64),
    Bytes(Vec<u8>),
    Other,
}

pub struct WireField {
    pub tag: u32,
    pub value: WireValue,
}

pub enum WireValueView {
    Varint(u64),
    Bytes(Seq<u8>),
    Other,
}

pub struct WireFieldView {
    pub tag: u32,
    pub value: WireValueView,
}

impl View for WireField {
    type V = WireFieldView;

    open spec fn view(&self) -> WireFieldView {
        WireFieldView {
            tag: self.tag,
            value: match self.value {
                WireValue::Varint(number) => WireValueView::Varint(number),
                WireValue::Bytes(bytes) => WireValueView::Bytes(bytes@),
                WireValue::Other => WireValueView::Other,
            },
        }
    }
}

pub open spec fn views(fields: Seq<WireField>) -> Seq<WireFieldView> {
    Seq::new(fields.len(), |i: int| fields[i]@)
}

/// The content of a field after its key, with the number of bytes that it takes.
pub open spec fn value_at(inside: bool, tag: u32, wire: u8, bytes: Seq<u8>) -> Option<
    (WireValueView, nat),
> {
    if wire == 0 {
        match varint_at(bytes, 0) {
            Some((number, used)) => Some((WireValueView::Varint(number as u64), used)),
            None => None,
        }
    } else if wire == 2 {
        match varint_at(bytes, 0) {
            Some((length, used)) => if used + length <= bytes.len() {
                Some(
                    (
                        WireValueView::Bytes(bytes.subrange(used as int, (used + length) as int)),
                        used + length,
                    ),
                )
            } else {
                None
            },
            None => None,
        }
    } else {
        match skipped_in(inside, tag, wire, bytes) {
            Some(used) => Some((WireValueView::Other, used)),
            None => None,
        }
    }
}

/// The field at the front of `bytes`, with the number of bytes that it takes.
pub open spec fn field_at(inside: bool, bytes: Seq<u8>) -> Option<(WireFieldView, nat)> {
    match key_at(bytes) {
        Some((tag, wire, key_len)) => match value_at(
            inside,
            tag,
            wire,
            bytes.skip(key_len as int),
        ) {
            Some((value, used)) => Some((WireFieldView { tag, value }, key_len + used)),
            None => None,
        },
        None => None,
    }
}

/// The fields of a message, in the order in which they stand. The message stands by itself, or
/// inside another one.
pub open spec fn fields_of(inside: bool, bytes: Seq<u8>) -> Option<Seq<WireFieldView>>
    decreases bytes.len(),
{
    if bytes.len() == 0 {
        Some(Seq::empty())
    } else {
        match field_at(inside, bytes) {
            Some((field, used)) => if 0 < used <= bytes.len() {
                match fields_of(inside, bytes.skip(used as int)) {
                    Some(rest) => Some(seq![field] + rest),
                    None => None,
                }
            } else {
                None
            },
            None => None,
        }
    }
}

fn read_value(inside: bool, tag: u32, wire: u8, bytes: &[u8]) -> (read: Option<
    (WireValue, &[u8]),
>)
    requires
        1 <= tag < 0x2000_0000,
        wire <= 5,
    ensures
        match read {
            Some((value, rest)) => value_at(inside, tag, wire, bytes@) matches Some((content, used))
                && (WireField { tag, value })@.value == content && used <= bytes@.len() && rest@
                == bytes@.skip(used as int),
            None => value_at(inside, tag, wire, bytes@) is None,
        },
{
    proof {
        lemma_varint_bounds(bytes@, 0);
        lemma_varint_limit();
    }
    if wire == 0 {
        match read_varint(bytes) {
            Some((number, rest)) => Some((WireValue::Varint(number), rest)),
            None => None,
        }
    } else if wire == 2 {
        match read_varint(bytes) {
            Some((length, rest)) => {
                if length > rest.len() as u64 {
                    return None;
                }
                let end: usize = length as usize;
                let content = slice_to_vec(slice_subrange(rest, 0, end));
                let left = slice_subrange(rest, end, rest.len());
                proof {
                    let used = varint_at(bytes@, 0)->Some_0.1 as int;
                    assert(content@ =~= bytes@.subrange(used, used + end));
                    assert(left@ =~= bytes@.skip(used + end));
                }
                Some((WireValue::Bytes(content), left))
            },
            None => None,
        }
    } else {
        match skip_in(inside, tag, wire, bytes) {
            Some(rest) => Some((WireValue::Other, rest)),
            None => None,
        }
    }
}

/// The fields of a message, which stands by itself or inside another one; nothing where it is
/// malformed.
pub fn read_fields(inside: bool, bytes: &[u8]) -> (fields: Option<Vec<WireField>>)
    ensures
        match fields {
            Some(list) => fields_of(inside, bytes@) == Some(views(list@)),
            None => fields_of(inside, bytes@) is None,
        },
{
    let mut out: Vec<WireField> = Vec::new();
    let mut rest: &[u8] = bytes;
    proof {
        if fields_of(inside, bytes@) is Some {
            let all = fields_of(inside, bytes@)->Some_0;
            assert(views(out@) + all =~= all);
        }
    }
    while rest.len() > 0
        invariant
            fields_of(inside, bytes@) == match fields_of(inside, rest@) {
                Some(more) => Some(views(out@) + more),
                None => None,
            },
        decreases rest@.len(),
    {
        proof {
            lemma_varint_bounds(rest@, 0);
        }
        let ghost before = rest@;
        let ghost done = views(out@);
        match read_key(rest) {
            Some((tag, wire, content)) => match read_value(inside, tag, wire, content) {
                Some((value, left)) => {
                    proof {
                        let (field, used) = field_at(inside, before)->Some_0;
                        let key_len = key_at(before)->Some_0.2 as int;
                        assert(before.skip(key_len).skip(used - key_len) =~= before.skip(
                            used as int,
                        ));
                        assert(left@ == before.skip(used as int));
                    }
                    let field = WireField { tag, value };
                    out.push(field);
                    rest = left;
                    proof {
                        assert(views(out@) =~= done.push(field@));
                        if fields_of(inside, rest@) is Some {
                            let more = fields_of(inside, rest@)->Some_0;
                            assert(done + (seq![field@] + more) =~= views(out@) + more);
                        }
                    }
                },
                None => {
                    return None;
                },
            },
            None => {
                return None;
            },
        }
    }
    assert(views(out@) + Seq::<WireFieldView>::empty() =~= views(out@));
    Some(out)
}

/// A number under a tag.
pub open spec fn varint_field(tag: nat, value: nat) -> Seq<u8> {
    varint_bytes(8 * tag) + varint_bytes(value)
}

/// A piece of data under a tag, with its length before it.
pub open spec fn bytes_field(tag: nat, data: Seq<u8>) -> Seq<u8> {
    varint_bytes(8 * tag + 2) + varint_bytes(data.len()) + data
}

pub fn push_varint_field(out: &mut Vec<u8>, tag: u32, value: u64)
    requires
        1 <= tag < 0x2000_0000,
    ensures
        final(out)@ == old(out)@ + varint_field(tag as nat, value as nat),
{
    push_key(out, tag, FieldKind::Varint);
    push_varint(out, value);
    assert(out@ =~= old(out)@ + varint_field(tag as nat, value as nat));
}

pub fn push_bytes_field(out: &mut Vec<u8>, tag: u32, data: &[u8])
    requires
        1 <= tag < 0x2000_0000,
    ensures
        final(out)@ == old(out)@ + bytes_field(tag as nat, data@),
{
    push_key(out, tag, FieldKind::LengthDelimited);
    push_varint(out, data.len() as u64);
    out.extend_from_slice(data);
    assert(out@ =~= old(out)@ + bytes_field(tag as nat, data@));
}

proof fn lemma_key_reads_back(tag: u32, wire: nat, rest: Seq<u8>)
    requires
        1 <= tag < 0x2000_0000,
        wire <= 5,
    ensures
        key_at(varint_bytes(8 * (tag as nat) + wire) + rest) == Some(
            (tag, wire as u8, varint_bytes(8 * (tag as nat) + wire).len()),
        ),
{
    let key = (8 * tag + wire) as u64;
    written_numbers_read_back(key, rest);
    assert(key as nat == 8 * (tag as nat) + wire);
}

/// A written number is read back as the first field, and what follows it is read as if it stood
/// alone.
pub proof fn number_fields_read_back(inside: bool, tag: u32, value: u64, rest: Seq<u8>)
    requires
        1 <= tag < 0x2000_0000,
    ensures
        fields_of(inside, varint_field(tag as nat, value as nat) + rest) == match fields_of(inside, rest) {
            Some(more) => Some(
                seq![WireFieldView { tag, value: WireValueView::Varint(value) }] + more,
            ),
            None => None,
        },
{
    let key = varint_bytes(8 * (tag as nat));
    let number = varint_bytes(value as nat);
    let all = varint_field(tag as nat, value as nat) + rest;
    assert(all =~= key + (number + rest));
    lemma_key_reads_back(tag, 0, number + rest);
    assert(8 * (tag as nat) + 0 == 8 * (tag as nat));
    assert(all.skip(key.len() as int) =~= number + rest);
    written_numbers_read_back(value, rest);
    lemma_varint_bounds(all, 0);
    assert(all.skip((key.len() + number.len()) as int) =~= rest);
}

/// Written data is read back as the first field, and what follows it is read as if it stood alone.
pub proof fn data_fields_read_back(inside: bool, tag: u32, data: Seq<u8>, rest: Seq<u8>)
    requires
        1 <= tag < 0x2000_0000,
        data.len() <= u64::MAX,
    ensures
        fields_of(inside, bytes_field(tag as nat, data) + rest) == match fields_of(inside, rest) {
            Some(more) => Some(
                seq![WireFieldView { tag, value: WireValueView::Bytes(data) }] + more,
            ),
            None => None,
        },
{
    let key = varint_bytes(8 * (tag as nat) + 2);
    let length = varint_bytes(data.len());
    let all = bytes_field(tag as nat, data) + rest;
    let content = length + (data + rest);
    assert(all =~= key + content);
    lemma_key_reads_back(tag, 2, content);
    assert(all.skip(key.len() as int) =~= content);
    written_numbers_read_back(data.len() as u64, data + rest);
    let start = length.len() as int;
    assert(content.subrange(start, start + data.len()) =~= data);
    lemma_varint_bounds(all, 0);
    assert(all.skip(key.len() + (start + data.len())) =~= rest);
}

impl WireValueView {
    /// The number that the field holds.
    pub open spec fn number(self) -> Option<u64> {
        match self {
            WireValueView::Varint(number) => Some(number),
            _ => None,
        }
    }

    /// The data that the field holds.
    pub open spec fn data(self) -> Option<Seq<u8>> {
        match self {
            WireValueView::Bytes(bytes) => Some(bytes),
            _ => None,
        }
    }

    /// The text that the field holds.
    pub open spec fn text(self) -> Option<Seq<char>> {
        match self {
            WireValueView::Bytes(bytes) => if valid_utf8(bytes) {
                Some(decode_utf8(bytes))
            } else {
                None
            },
            _ => None,
        }
    }
}

impl WireValue {
    pub fn number(&self) -> (number: Option<u64>)
        ensures
            number == (WireField { tag: 0, value: *self })@.value.number(),
    {
        match self {
            WireValue::Varint(number) => Some(*number),
            _ => None,
        }
    }

    pub fn data(self) -> (data: Option<Vec<u8>>)
        ensures
            match data {
                Some(bytes) => (WireField { tag: 0, value: self })@.value.data() == Some(bytes@),
                None => (WireField { tag: 0, value: self })@.value.data() is None,
            },
    {
        match self {
            WireValue::Bytes(bytes) => Some(bytes),
            _ => None,
        }
    }

    pub fn text(self) -> (text: Option<String>)
        ensures
            match text {
                Some(chars) => (WireField { tag: 0, value: self })@.value.text() == Some(chars@),
                None => (WireField { tag: 0, value: self })@.value.text() is None,
            },
    {
        match self {
            WireValue::Bytes(bytes) => match text_from_utf8(bytes) {
                Ok(text) => Some(text),
                Err(_) => None,
            },
            _ => None,
        }
    }
}

/// A field of fixed width takes its eight or four bytes, and no group ends where none was begun.
pub proof fn fixed_fields_have_their_width(tag: u32, bytes: Seq<u8>)
    ensures
        bytes.len() >= 8 ==> skipped_at(tag, 1, bytes) == Some(8nat),
        bytes.len() < 8 ==> skipped_at(tag, 1, bytes) is None,
        bytes.len() >= 4 ==> skipped_at(tag, 5, bytes) == Some(4nat),
        bytes.len() < 4 ==> skipped_at(tag, 5, bytes) is None,
        skipped_at(tag, 4, bytes) is None,
{
}

} // verus!
