//! Error details inside the details of a status.

use vstd::prelude::*;
use vstd::utf8::*;

use crate::rpc::proto::{ErrorDetail, ErrorDetailView, StatusCode};
use crate::rpc::wire;
use crate::rpc::wire::{
    push_bytes_field, push_varint_field, read_fields, WireField, WireFieldView, WireValueView,
};
use crate::text;

verus! {

/// The type URL under which an error detail is written.
pub const ERROR_DETAIL_TYPE_URL: &'static str = "type.googleapis.com/chronos.tso.v1.ErrorDetail";

/// A type URL under which an error detail is accepted.
pub open spec fn names_error_detail(type_url: Seq<char>) -> bool {
    type_url == ERROR_DETAIL_TYPE_URL@ || text::has_suffix(
        type_url,
        "/chronos.tso.v1.ErrorDetail"@,
    )
}

pub fn is_error_detail_type_url(type_url: &str) -> (answer: bool)
    ensures
        answer == names_error_detail(type_url@),
{
    type_url.to_owned() == ERROR_DETAIL_TYPE_URL.to_owned() || text::ends_with(
        type_url,
        "/chronos.tso.v1.ErrorDetail",
    )
}

// ---- writing ----

/// A 32-bit number under a tag; zero is left out.
pub open spec fn int32_part(tag: nat, value: i32) -> Seq<u8> {
    if value == 0 {
        Seq::empty()
    } else {
        wire::varint_field(tag, (value as u64) as nat)
    }
}

/// A number under a tag; zero is left out.
pub open spec fn uint64_part(tag: nat, value: u64) -> Seq<u8> {
    if value == 0 {
        Seq::empty()
    } else {
        wire::varint_field(tag, value as nat)
    }
}

/// A text under a tag; an empty one is left out.
pub open spec fn text_part(tag: nat, value: Seq<char>) -> Seq<u8> {
    if value.len() == 0 {
        Seq::empty()
    } else {
        wire::bytes_field(tag, encode_utf8(value))
    }
}

/// Data under a tag; empty data is left out.
pub open spec fn data_part(tag: nat, value: Seq<u8>) -> Seq<u8> {
    if value.len() == 0 {
        Seq::empty()
    } else {
        wire::bytes_field(tag, value)
    }
}

/// An error detail as it is written.
pub open spec fn error_detail_bytes(detail: ErrorDetailView) -> Seq<u8> {
    int32_part(1, detail.code) + (text_part(2, detail.message) + (uint64_part(
        3,
        detail.current_epoch,
    ) + (uint64_part(4, detail.current_route_version) + (text_part(5, detail.redirect_endpoint) + (
    int32_part(6, detail.action_blocker) + int32_part(7, detail.next_step))))))
}

/// An error detail wrapped with its type URL.
pub open spec fn wrapped_bytes(detail: ErrorDetailView) -> Seq<u8> {
    text_part(1, ERROR_DETAIL_TYPE_URL@) + data_part(2, error_detail_bytes(detail))
}

/// A status that carries one error detail.
pub open spec fn status_bytes(code: i32, message: Seq<char>, detail: ErrorDetailView) -> Seq<u8> {
    int32_part(1, code) + (text_part(2, message) + wire::bytes_field(3, wrapped_bytes(detail)))
}

fn push_int32(out: &mut Vec<u8>, tag: u32, value: i32)
    requires
        1 <= tag < 0x2000_0000,
    ensures
        final(out)@ == old(out)@ + int32_part(tag as nat, value),
{
    if value != 0 {
        push_varint_field(out, tag, value as u64);
    } else {
        assert(out@ =~= old(out)@ + Seq::<u8>::empty());
    }
}

fn push_uint64(out: &mut Vec<u8>, tag: u32, value: u64)
    requires
        1 <= tag < 0x2000_0000,
    ensures
        final(out)@ == old(out)@ + uint64_part(tag as nat, value),
{
    if value != 0 {
        push_varint_field(out, tag, value);
    } else {
        assert(out@ =~= old(out)@ + Seq::<u8>::empty());
    }
}

fn push_text(out: &mut Vec<u8>, tag: u32, value: &str)
    requires
        1 <= tag < 0x2000_0000,
    ensures
        final(out)@ == old(out)@ + text_part(tag as nat, value@),
{
    let length: usize = value.unicode_len();
    if length != 0 {
        push_bytes_field(out, tag, value.as_bytes());
    } else {
        assert(out@ =~= old(out)@ + Seq::<u8>::empty());
    }
}

fn push_data(out: &mut Vec<u8>, tag: u32, value: &[u8])
    requires
        1 <= tag < 0x2000_0000,
    ensures
        final(out)@ == old(out)@ + data_part(tag as nat, value@),
{
    if value.len() != 0 {
        push_bytes_field(out, tag, value);
    } else {
        assert(out@ =~= old(out)@ + Seq::<u8>::empty());
    }
}

proof fn lemma_seven_parts(
    a: Seq<u8>,
    b: Seq<u8>,
    c: Seq<u8>,
    d: Seq<u8>,
    e: Seq<u8>,
    f: Seq<u8>,
    g: Seq<u8>,
)
    ensures
        Seq::<u8>::empty() + a + b + c + d + e + f + g == a + (b + (c + (d + (e + (f + g))))),
{
    assert(Seq::<u8>::empty() + a =~= a);
    assert(a + b + c =~= a + (b + c));
    assert(a + (b + c) + d =~= a + (b + (c + d)));
    assert(a + (b + (c + d)) + e =~= a + (b + (c + (d + e))));
    assert(a + (b + (c + (d + e))) + f =~= a + (b + (c + (d + (e + f)))));
    assert(a + (b + (c + (d + (e + f)))) + g =~= a + (b + (c + (d + (e + (f + g))))));
}

/// An error detail by itself. It is read back unchanged.
pub fn encode_error_detail(detail: &ErrorDetail) -> (bytes: Vec<u8>)
    ensures
        bytes@ == error_detail_bytes(detail@),
        detail_in(bytes@) == Some(detail@),
{
    let mut out: Vec<u8> = Vec::new();
    push_int32(&mut out, 1, detail.code);
    push_text(&mut out, 2, detail.message.as_str());
    push_uint64(&mut out, 3, detail.current_epoch);
    push_uint64(&mut out, 4, detail.current_route_version);
    push_text(&mut out, 5, detail.redirect_endpoint.as_str());
    push_int32(&mut out, 6, detail.action_blocker);
    push_int32(&mut out, 7, detail.next_step);
    proof {
        lemma_seven_parts(
            int32_part(1, detail.code),
            text_part(2, detail.message@),
            uint64_part(3, detail.current_epoch),
            uint64_part(4, detail.current_route_version),
            text_part(5, detail.redirect_endpoint@),
            int32_part(6, detail.action_blocker),
            int32_part(7, detail.next_step),
        );
        assert(out@.len() == out.len());
        bare_error_details_read_back(detail@);
    }
    out
}

/// A status with a code, a message and one error detail, which is read back unchanged.
pub fn encode_error_detail_status(code: StatusCode, message: &str, detail: &ErrorDetail) -> (bytes:
    Vec<u8>)
    ensures
        bytes@ == status_bytes(code.code(), message@, detail@),
        detail_in(bytes@) == Some(detail@),
{
    let inner = encode_error_detail(detail);
    let mut wrapped: Vec<u8> = Vec::new();
    push_text(&mut wrapped, 1, ERROR_DETAIL_TYPE_URL);
    push_data(&mut wrapped, 2, inner.as_slice());
    assert(wrapped@ =~= wrapped_bytes(detail@));
    let mut out: Vec<u8> = Vec::new();
    push_int32(&mut out, 1, code.number());
    push_text(&mut out, 2, message);
    push_bytes_field(&mut out, 3, wrapped.as_slice());
    proof {
        assert(out@ =~= status_bytes(code.code(), message@, detail@));
        assert(out@.len() == out.len());
        details_of_written_statuses_read_back(code.code(), message@, detail@);
    }
    out
}

// ---- reading ----

/// An error detail before any of its fields is read.
pub open spec fn blank_detail() -> ErrorDetailView {
    ErrorDetailView {
        code: 0,
        message: Seq::empty(),
        current_epoch: 0,
        current_route_version: 0,
        redirect_endpoint: Seq::empty(),
        action_blocker: 0,
        next_step: 0,
    }
}

/// The low 32 bits of a number.
pub open spec fn low_int32(number: u64) -> i32 {
    number as i32
}

/// The detail with one more field; a field of the wrong kind spoils it, an unknown one is passed
/// over.
pub open spec fn with_field(detail: ErrorDetailView, field: WireFieldView) -> Option<
    ErrorDetailView,
> {
    let number = field.value.number();
    let chars = field.value.text();
    if field.tag == 1 {
        match number {
            Some(n) => Some(ErrorDetailView { code: low_int32(n), ..detail }),
            None => None,
        }
    } else if field.tag == 2 {
        match chars {
            Some(c) => Some(ErrorDetailView { message: c, ..detail }),
            None => None,
        }
    } else if field.tag == 3 {
        match number {
            Some(n) => Some(ErrorDetailView { current_epoch: n, ..detail }),
            None => None,
        }
    } else if field.tag == 4 {
        match number {
            Some(n) => Some(ErrorDetailView { current_route_version: n, ..detail }),
            None => None,
        }
    } else if field.tag == 5 {
        match chars {
            Some(c) => Some(ErrorDetailView { redirect_endpoint: c, ..detail }),
            None => None,
        }
    } else if field.tag == 6 {
        match number {
            Some(n) => Some(ErrorDetailView { action_blocker: low_int32(n), ..detail }),
            None => None,
        }
    } else if field.tag == 7 {
        match number {
            Some(n) => Some(ErrorDetailView { next_step: low_int32(n), ..detail }),
            None => None,
        }
    } else {
        Some(detail)
    }
}

/// The detail with all the fields, in their order.
pub open spec fn with_fields(detail: ErrorDetailView, fields: Seq<WireFieldView>) -> Option<
    ErrorDetailView,
>
    decreases fields.len(),
{
    if fields.len() == 0 {
        Some(detail)
    } else {
        match with_field(detail, fields[0]) {
            Some(next) => with_fields(next, fields.drop_first()),
            None => None,
        }
    }
}

/// The error detail that the bytes hold.
pub open spec fn error_detail_of(bytes: Seq<u8>) -> Option<ErrorDetailView> {
    match wire::fields_of(false, bytes) {
        Some(fields) => with_fields(blank_detail(), fields),
        None => None,
    }
}

fn apply_field(detail: ErrorDetail, field: WireField) -> (next: Option<ErrorDetail>)
    ensures
        match next {
            Some(value) => with_field(detail@, field@) == Some(value@),
            None => with_field(detail@, field@) is None,
        },
{
    let mut detail = detail;
    let number = field.value.number();
    if field.tag == 1 || field.tag == 3 || field.tag == 4 || field.tag == 6 || field.tag == 7 {
        match number {
            Some(n) => {
                if field.tag == 1 {
                    detail.code = #[verifier::truncate] (n as i32);
                } else if field.tag == 3 {
                    detail.current_epoch = n;
                } else if field.tag == 4 {
                    detail.current_route_version = n;
                } else if field.tag == 6 {
                    detail.action_blocker = #[verifier::truncate] (n as i32);
                } else {
                    detail.next_step = #[verifier::truncate] (n as i32);
                }
            },
            None => {
                return None;
            },
        }
    } else if field.tag == 2 || field.tag == 5 {
        match field.value.text() {
            Some(chars) => {
                if field.tag == 2 {
                    detail.message = chars;
                } else {
                    detail.redirect_endpoint = chars;
                }
            },
            None => {
                return None;
            },
        }
    }
    Some(detail)
}

/// The error detail that the bytes hold; nothing where they are malformed.
pub fn decode_error_detail(bytes: &[u8]) -> (detail: Option<ErrorDetail>)
    ensures
        match detail {
            Some(value) => error_detail_of(bytes@) == Some(value@),
            None => error_detail_of(bytes@) is None,
        },
{
    let mut fields = match read_fields(false, bytes) {
        Some(fields) => fields,
        None => {
            return None;
        },
    };
    let ghost all = wire::views(fields@);
    let mut detail = ErrorDetail {
        code: 0,
        message: String::new(),
        current_epoch: 0,
        current_route_version: 0,
        redirect_endpoint: String::new(),
        action_blocker: 0,
        next_step: 0,
    };
    assert(detail@.message =~= Seq::<char>::empty());
    assert(detail@.redirect_endpoint =~= Seq::<char>::empty());
    while fields.len() > 0
        invariant
            wire::fields_of(false, bytes@) == Some(all),
            with_fields(blank_detail(), all) == with_fields(detail@, wire::views(fields@)),
        decreases fields@.len(),
    {
        let ghost before = wire::views(fields@);
        let field = fields.remove(0);
        assert(wire::views(fields@) =~= before.drop_first());
        assert(before[0] == field@);
        detail = match apply_field(detail, field) {
            Some(next) => next,
            None => {
                return None;
            },
        };
    }
    Some(detail)
}

/// A value with the type URL that names its type.
pub struct TypedValue {
    pub type_url: String,
    pub value: Vec<u8>,
}

pub struct TypedValueView {
    pub type_url: Seq<char>,
    pub value: Seq<u8>,
}

impl View for TypedValue {
    type V = TypedValueView;

    open spec fn view(&self) -> TypedValueView {
        TypedValueView { type_url: self.type_url@, value: self.value@ }
    }
}

pub open spec fn typed_with_field(typed: TypedValueView, field: WireFieldView) -> Option<
    TypedValueView,
> {
    if field.tag == 1 {
        match field.value.text() {
            Some(type_url) => Some(TypedValueView { type_url, ..typed }),
            None => None,
        }
    } else if field.tag == 2 {
        match field.value.data() {
            Some(value) => Some(TypedValueView { value, ..typed }),
            None => None,
        }
    } else {
        Some(typed)
    }
}

pub open spec fn typed_with_fields(typed: TypedValueView, fields: Seq<WireFieldView>) -> Option<
    TypedValueView,
>
    decreases fields.len(),
{
    if fields.len() == 0 {
        Some(typed)
    } else {
        match typed_with_field(typed, fields[0]) {
            Some(next) => typed_with_fields(next, fields.drop_first()),
            None => None,
        }
    }
}

/// The typed value that the bytes hold, which stand inside a status.
pub open spec fn typed_value_of(bytes: Seq<u8>) -> Option<TypedValueView> {
    match wire::fields_of(true, bytes) {
        Some(fields) => typed_with_fields(
            TypedValueView { type_url: Seq::empty(), value: Seq::empty() },
            fields,
        ),
        None => None,
    }
}

fn decode_typed_value(bytes: &[u8]) -> (typed: Option<TypedValue>)
    ensures
        match typed {
            Some(value) => typed_value_of(bytes@) == Some(value@),
            None => typed_value_of(bytes@) is None,
        },
{
    let mut fields = match read_fields(true, bytes) {
        Some(fields) => fields,
        None => {
            return None;
        },
    };
    let ghost all = wire::views(fields@);
    let ghost empty = TypedValueView { type_url: Seq::empty(), value: Seq::empty() };
    let mut typed = TypedValue { type_url: String::new(), value: Vec::new() };
    assert(typed@.type_url =~= empty.type_url);
    assert(typed@.value =~= empty.value);
    while fields.len() > 0
        invariant
            empty == (TypedValueView { type_url: Seq::empty(), value: Seq::empty() }),
            wire::fields_of(true, bytes@) == Some(all),
            typed_with_fields(empty, all) == typed_with_fields(typed@, wire::views(fields@)),
        decreases fields@.len(),
    {
        let ghost before = wire::views(fields@);
        let field = fields.remove(0);
        assert(wire::views(fields@) =~= before.drop_first());
        assert(before[0] == field@);
        if field.tag == 1 {
            match field.value.text() {
                Some(type_url) => {
                    typed.type_url = type_url;
                },
                None => {
                    return None;
                },
            }
        } else if field.tag == 2 {
            match field.value.data() {
                Some(value) => {
                    typed.value = value;
                },
                None => {
                    return None;
                },
            }
        }
    }
    Some(typed)
}

/// The details of a status after one more field.
pub open spec fn details_with_field(details: Seq<TypedValueView>, field: WireFieldView) -> Option<
    Seq<TypedValueView>,
> {
    if field.tag == 1 {
        match field.value.number() {
            Some(_) => Some(details),
            None => None,
        }
    } else if field.tag == 2 {
        match field.value.text() {
            Some(_) => Some(details),
            None => None,
        }
    } else if field.tag == 3 {
        match field.value.data() {
            Some(data) => match typed_value_of(data) {
                Some(typed) => Some(details.push(typed)),
                None => None,
            },
            None => None,
        }
    } else {
        Some(details)
    }
}

pub open spec fn details_with_fields(
    details: Seq<TypedValueView>,
    fields: Seq<WireFieldView>,
) -> Option<Seq<TypedValueView>>
    decreases fields.len(),
{
    if fields.len() == 0 {
        Some(details)
    } else {
        match details_with_field(details, fields[0]) {
            Some(next) => details_with_fields(next, fields.drop_first()),
            None => None,
        }
    }
}

/// The details of the status that the bytes hold.
pub open spec fn status_details_of(bytes: Seq<u8>) -> Option<Seq<TypedValueView>> {
    match wire::fields_of(false, bytes) {
        Some(fields) => details_with_fields(Seq::empty(), fields),
        None => None,
    }
}

pub open spec fn typed_views(list: Seq<TypedValue>) -> Seq<TypedValueView> {
    Seq::new(list.len(), |i: int| list[i]@)
}

fn decode_status_details(bytes: &[u8]) -> (details: Option<Vec<TypedValue>>)
    ensures
        match details {
            Some(list) => status_details_of(bytes@) == Some(typed_views(list@)),
            None => status_details_of(bytes@) is None,
        },
{
    let mut fields = match read_fields(false, bytes) {
        Some(fields) => fields,
        None => {
            return None;
        },
    };
    let ghost all = wire::views(fields@);
    let mut details: Vec<TypedValue> = Vec::new();
    assert(typed_views(details@) =~= Seq::<TypedValueView>::empty());
    while fields.len() > 0
        invariant
            wire::fields_of(false, bytes@) == Some(all),
            details_with_fields(Seq::empty(), all) == details_with_fields(
                typed_views(details@),
                wire::views(fields@),
            ),
        decreases fields@.len(),
    {
        let ghost before = wire::views(fields@);
        let ghost done = typed_views(details@);
        let field = fields.remove(0);
        assert(wire::views(fields@) =~= before.drop_first());
        assert(before[0] == field@);
        if field.tag == 1 {
            if field.value.number().is_none() {
                return None;
            }
        } else if field.tag == 2 {
            if field.value.text().is_none() {
                return None;
            }
        } else if field.tag == 3 {
            match field.value.data() {
                Some(data) => match decode_typed_value(data.as_slice()) {
                    Some(typed) => {
                        details.push(typed);
                        assert(typed_views(details@) =~= done.push(typed@));
                    },
                    None => {
                        return None;
                    },
                },
                None => {
                    return None;
                },
            }
        }
    }
    Some(details)
}

/// The first of the details that is an error detail.
pub open spec fn first_error_detail(details: Seq<TypedValueView>) -> Option<ErrorDetailView>
    decreases details.len(),
{
    if details.len() == 0 {
        None
    } else if names_error_detail(details[0].type_url) && error_detail_of(details[0].value) is Some {
        error_detail_of(details[0].value)
    } else {
        first_error_detail(details.drop_first())
    }
}

/// The error detail that the details of a status hold: the first among the details of a status
/// message, or else the bytes themselves taken as an error detail.
pub open spec fn detail_in(bytes: Seq<u8>) -> Option<ErrorDetailView> {
    match status_details_of(bytes) {
        Some(details) => match first_error_detail(details) {
            Some(detail) => Some(detail),
            None => error_detail_of(bytes),
        },
        None => error_detail_of(bytes),
    }
}

/// The error detail that the details of a status hold.
pub fn decode_error_detail_from_status_details(details: &[u8]) -> (found: Option<ErrorDetail>)
    ensures
        match found {
            Some(detail) => detail_in(details@) == Some(detail@),
            None => detail_in(details@) is None,
        },
{
    if let Some(list) = decode_status_details(details) {
        let mut i: usize = 0;
        assert(typed_views(list@).skip(0) =~= typed_views(list@));
        while i < list.len()
            invariant
                i <= list@.len(),
                status_details_of(details@) == Some(typed_views(list@)),
                first_error_detail(typed_views(list@)) == first_error_detail(
                    typed_views(list@).skip(i as int),
                ),
            decreases list@.len() - i,
        {
            let ghost rest = typed_views(list@).skip(i as int);
            assert(rest[0] == list@[i as int]@);
            assert(rest.drop_first() =~= typed_views(list@).skip(i + 1));
            if is_error_detail_type_url(list[i].type_url.as_str()) {
                if let Some(decoded) = decode_error_detail(list[i].value.as_slice()) {
                    return Some(decoded);
                }
            }
            i = i + 1;
        }
    }
    decode_error_detail(details)
}

// ---- what is written is read back ----

spec fn int32_fields(tag: u32, value: i32) -> Seq<WireFieldView> {
    if value == 0 {
        Seq::empty()
    } else {
        seq![WireFieldView { tag, value: WireValueView::Varint(value as u64) }]
    }
}

spec fn uint64_fields(tag: u32, value: u64) -> Seq<WireFieldView> {
    if value == 0 {
        Seq::empty()
    } else {
        seq![WireFieldView { tag, value: WireValueView::Varint(value) }]
    }
}

spec fn text_fields(tag: u32, value: Seq<char>) -> Seq<WireFieldView> {
    if value.len() == 0 {
        Seq::empty()
    } else {
        seq![WireFieldView { tag, value: WireValueView::Bytes(encode_utf8(value)) }]
    }
}

spec fn data_fields(tag: u32, value: Seq<u8>) -> Seq<WireFieldView> {
    if value.len() == 0 {
        Seq::empty()
    } else {
        seq![WireFieldView { tag, value: WireValueView::Bytes(value) }]
    }
}

/// The bytes are the fields, whatever follows.
spec fn spells(bytes: Seq<u8>, fields: Seq<WireFieldView>) -> bool {
    forall|inside: bool, rest: Seq<u8>, more: Seq<WireFieldView>|
        wire::fields_of(inside, rest) == Some(more) ==> #[trigger] wire::fields_of(
            inside,
            bytes + rest,
        ) == Some(#[trigger] (fields + more))
}

proof fn lemma_spelled_row(
    a: Seq<u8>,
    a_fields: Seq<WireFieldView>,
    b: Seq<u8>,
    b_fields: Seq<WireFieldView>,
)
    requires
        spells(a, a_fields),
        spells(b, b_fields),
    ensures
        spells(a + b, a_fields + b_fields),
{
    assert forall|inside: bool, rest: Seq<u8>, more: Seq<WireFieldView>|
        wire::fields_of(inside, rest) == Some(more) implies #[trigger] wire::fields_of(
        inside,
        (a + b) + rest,
    ) == Some(#[trigger] ((a_fields + b_fields) + more)) by {
        assert(wire::fields_of(inside, b + rest) == Some(b_fields + more));
        assert((a + b) + rest =~= a + (b + rest));
        assert((a_fields + b_fields) + more =~= a_fields + (b_fields + more));
        assert(wire::fields_of(inside, a + (b + rest)) == Some(a_fields + (b_fields + more)));
    }
}

proof fn lemma_spelled_alone(bytes: Seq<u8>, fields: Seq<WireFieldView>)
    requires
        spells(bytes, fields),
    ensures
        wire::fields_of(false, bytes) == Some(fields),
        wire::fields_of(true, bytes) == Some(fields),
{
    let none = Seq::<u8>::empty();
    let no_fields = Seq::<WireFieldView>::empty();
    assert(wire::fields_of(false, none) == Some(no_fields));
    assert(wire::fields_of(true, none) == Some(no_fields));
    assert(bytes + none =~= bytes);
    assert(fields + no_fields =~= fields);
    assert(wire::fields_of(false, bytes + none) == Some(fields + no_fields));
    assert(wire::fields_of(true, bytes + none) == Some(fields + no_fields));
}

proof fn lemma_nothing_is_spelled()
    ensures
        spells(Seq::empty(), Seq::empty()),
{
    assert forall|inside: bool, rest: Seq<u8>, more: Seq<WireFieldView>|
        wire::fields_of(inside, rest) == Some(more) implies #[trigger] wire::fields_of(
        inside,
        Seq::<u8>::empty() + rest,
    ) == Some(#[trigger] (Seq::<WireFieldView>::empty() + more)) by {
        assert(Seq::<u8>::empty() + rest =~= rest);
        assert(Seq::<WireFieldView>::empty() + more =~= more);
    }
}

proof fn lemma_number_is_spelled(tag: u32, value: u64)
    requires
        1 <= tag < 0x2000_0000,
    ensures
        spells(
            wire::varint_field(tag as nat, value as nat),
            seq![WireFieldView { tag, value: WireValueView::Varint(value) }],
        ),
{
    assert forall|inside: bool, rest: Seq<u8>, more: Seq<WireFieldView>|
        wire::fields_of(inside, rest) == Some(more) implies #[trigger] wire::fields_of(
        inside,
        wire::varint_field(tag as nat, value as nat) + rest,
    ) == Some(
        #[trigger] (seq![WireFieldView { tag, value: WireValueView::Varint(value) }] + more),
    ) by {
        wire::number_fields_read_back(inside, tag, value, rest);
    }
}

proof fn lemma_data_is_spelled(tag: u32, data: Seq<u8>)
    requires
        1 <= tag < 0x2000_0000,
        data.len() <= u64::MAX,
    ensures
        spells(
            wire::bytes_field(tag as nat, data),
            seq![WireFieldView { tag, value: WireValueView::Bytes(data) }],
        ),
{
    assert forall|inside: bool, rest: Seq<u8>, more: Seq<WireFieldView>|
        wire::fields_of(inside, rest) == Some(more) implies #[trigger] wire::fields_of(
        inside,
        wire::bytes_field(tag as nat, data) + rest,
    ) == Some(
        #[trigger] (seq![WireFieldView { tag, value: WireValueView::Bytes(data) }] + more),
    ) by {
        wire::data_fields_read_back(inside, tag, data, rest);
    }
}

proof fn lemma_parts_are_spelled(tag: u32, small: i32, large: u64, chars: Seq<char>)
    requires
        1 <= tag < 0x2000_0000,
        encode_utf8(chars).len() <= u64::MAX,
    ensures
        spells(int32_part(tag as nat, small), int32_fields(tag, small)),
        spells(uint64_part(tag as nat, large), uint64_fields(tag, large)),
        spells(text_part(tag as nat, chars), text_fields(tag, chars)),
{
    lemma_nothing_is_spelled();
    lemma_number_is_spelled(tag, small as u64);
    lemma_number_is_spelled(tag, large);
    lemma_data_is_spelled(tag, encode_utf8(chars));
}

/// The detail is small enough that every length in its written form fits in 64 bits.
pub open spec fn fits(detail: ErrorDetailView) -> bool {
    error_detail_bytes(detail).len() <= u64::MAX
}

spec fn detail_fields(detail: ErrorDetailView) -> Seq<WireFieldView> {
    int32_fields(1, detail.code) + (text_fields(2, detail.message) + (uint64_fields(
        3,
        detail.current_epoch,
    ) + (uint64_fields(4, detail.current_route_version) + (text_fields(5, detail.redirect_endpoint)
        + (int32_fields(6, detail.action_blocker) + int32_fields(7, detail.next_step))))))
}

proof fn lemma_detail_is_spelled(detail: ErrorDetailView)
    requires
        fits(detail),
    ensures
        spells(error_detail_bytes(detail), detail_fields(detail)),
{
    let small = encode_utf8(Seq::<char>::empty());
    assert(small.len() == 0);
    if detail.message.len() == 0 {
        assert(detail.message =~= Seq::<char>::empty());
    }
    if detail.redirect_endpoint.len() == 0 {
        assert(detail.redirect_endpoint =~= Seq::<char>::empty());
    }
    lemma_parts_are_spelled(1, detail.code, 0, Seq::empty());
    lemma_parts_are_spelled(2, 0, 0, detail.message);
    lemma_parts_are_spelled(3, 0, detail.current_epoch, Seq::empty());
    lemma_parts_are_spelled(4, 0, detail.current_route_version, Seq::empty());
    lemma_parts_are_spelled(5, 0, 0, detail.redirect_endpoint);
    lemma_parts_are_spelled(6, detail.action_blocker, 0, Seq::empty());
    lemma_parts_are_spelled(7, detail.next_step, 0, Seq::empty());
    let b7 = int32_part(7, detail.next_step);
    let f7 = int32_fields(7, detail.next_step);
    let b6 = int32_part(6, detail.action_blocker);
    let f6 = int32_fields(6, detail.action_blocker);
    lemma_spelled_row(b6, f6, b7, f7);
    let b5 = text_part(5, detail.redirect_endpoint);
    let f5 = text_fields(5, detail.redirect_endpoint);
    lemma_spelled_row(b5, f5, b6 + b7, f6 + f7);
    let b4 = uint64_part(4, detail.current_route_version);
    let f4 = uint64_fields(4, detail.current_route_version);
    lemma_spelled_row(b4, f4, b5 + (b6 + b7), f5 + (f6 + f7));
    let b3 = uint64_part(3, detail.current_epoch);
    let f3 = uint64_fields(3, detail.current_epoch);
    lemma_spelled_row(b3, f3, b4 + (b5 + (b6 + b7)), f4 + (f5 + (f6 + f7)));
    let b2 = text_part(2, detail.message);
    let f2 = text_fields(2, detail.message);
    lemma_spelled_row(b2, f2, b3 + (b4 + (b5 + (b6 + b7))), f3 + (f4 + (f5 + (f6 + f7))));
    let b1 = int32_part(1, detail.code);
    let f1 = int32_fields(1, detail.code);
    lemma_spelled_row(
        b1,
        f1,
        b2 + (b3 + (b4 + (b5 + (b6 + b7)))),
        f2 + (f3 + (f4 + (f5 + (f6 + f7)))),
    );
}

proof fn lemma_with_fields_row(
    detail: ErrorDetailView,
    a: Seq<WireFieldView>,
    b: Seq<WireFieldView>,
)
    requires
        a.len() <= 1,
    ensures
        with_fields(detail, a + b) == match with_fields(detail, a) {
            Some(next) => with_fields(next, b),
            None => None,
        },
{
    if a.len() == 0 {
        assert(a + b =~= b);
    } else {
        assert((a + b).drop_first() =~= b);
        assert(a.drop_first() =~= Seq::<WireFieldView>::empty());
        reveal_with_fuel(with_fields, 2);
    }
}

proof fn lemma_int32_survives(value: i32)
    ensures
        low_int32(value as u64) == value,
{
    assert((value as u64) as i32 == value) by (bit_vector);
}

proof fn lemma_detail_fields_read_back(detail: ErrorDetailView)
    ensures
        with_fields(blank_detail(), detail_fields(detail)) == Some(detail),
{
    broadcast use {encode_utf8_valid_utf8, encode_utf8_decode_utf8};

    reveal_with_fuel(with_fields, 2);
    lemma_int32_survives(detail.code);
    lemma_int32_survives(detail.action_blocker);
    lemma_int32_survives(detail.next_step);
    let f7 = int32_fields(7, detail.next_step);
    let f6 = int32_fields(6, detail.action_blocker);
    let f5 = text_fields(5, detail.redirect_endpoint);
    let f4 = uint64_fields(4, detail.current_route_version);
    let f3 = uint64_fields(3, detail.current_epoch);
    let f2 = text_fields(2, detail.message);
    let f1 = int32_fields(1, detail.code);
    let d0 = blank_detail();
    lemma_with_fields_row(d0, f1, f2 + (f3 + (f4 + (f5 + (f6 + f7)))));
    let d1 = ErrorDetailView { code: detail.code, ..d0 };
    assert(with_fields(d0, f1) == Some(d1));
    lemma_with_fields_row(d1, f2, f3 + (f4 + (f5 + (f6 + f7))));
    let d2 = ErrorDetailView { message: detail.message, ..d1 };
    if detail.message.len() == 0 {
        assert(detail.message =~= d1.message);
    }
    assert(with_fields(d1, f2) == Some(d2));
    lemma_with_fields_row(d2, f3, f4 + (f5 + (f6 + f7)));
    let d3 = ErrorDetailView { current_epoch: detail.current_epoch, ..d2 };
    assert(with_fields(d2, f3) == Some(d3));
    lemma_with_fields_row(d3, f4, f5 + (f6 + f7));
    let d4 = ErrorDetailView { current_route_version: detail.current_route_version, ..d3 };
    assert(with_fields(d3, f4) == Some(d4));
    lemma_with_fields_row(d4, f5, f6 + f7);
    let d5 = ErrorDetailView { redirect_endpoint: detail.redirect_endpoint, ..d4 };
    if detail.redirect_endpoint.len() == 0 {
        assert(detail.redirect_endpoint =~= d4.redirect_endpoint);
    }
    assert(with_fields(d4, f5) == Some(d5));
    lemma_with_fields_row(d5, f6, f7);
    let d6 = ErrorDetailView { action_blocker: detail.action_blocker, ..d5 };
    assert(with_fields(d5, f6) == Some(d6));
    assert(with_fields(d6, f7) == Some(ErrorDetailView { next_step: detail.next_step, ..d6 }));
}

/// A written error detail is read back unchanged.
pub proof fn written_error_details_read_back(detail: ErrorDetailView)
    requires
        fits(detail),
    ensures
        error_detail_of(error_detail_bytes(detail)) == Some(detail),
{
    lemma_detail_is_spelled(detail);
    lemma_spelled_alone(error_detail_bytes(detail), detail_fields(detail));
    lemma_detail_fields_read_back(detail);
}

proof fn lemma_wrapped_reads_back(detail: ErrorDetailView)
    requires
        fits(detail),
    ensures
        typed_value_of(wrapped_bytes(detail)) == Some(
            TypedValueView { type_url: ERROR_DETAIL_TYPE_URL@, value: error_detail_bytes(detail) },
        ),
{
    broadcast use {encode_utf8_valid_utf8, encode_utf8_decode_utf8};

    let value = error_detail_bytes(detail);
    let url = ERROR_DETAIL_TYPE_URL@;
    lemma_type_url_is_short();
    lemma_parts_are_spelled(1, 0, 0, url);
    lemma_nothing_is_spelled();
    lemma_data_is_spelled(2, value);
    let f1 = text_fields(1, url);
    let f2 = data_fields(2, value);
    lemma_spelled_row(text_part(1, url), f1, data_part(2, value), f2);
    lemma_spelled_alone(wrapped_bytes(detail), f1 + f2);
    let empty = TypedValueView { type_url: Seq::empty(), value: Seq::empty() };
    reveal_with_fuel(typed_with_fields, 3);
    assert((f1 + f2).drop_first() =~= f2);
    assert((f1 + f2)[0] == f1[0]);
    if value.len() == 0 {
        assert(value =~= empty.value);
    } else {
        assert(f2.drop_first() =~= Seq::<WireFieldView>::empty());
    }
}

proof fn lemma_type_url_is_short()
    ensures
        0 < ERROR_DETAIL_TYPE_URL@.len() <= 64,
        encode_utf8(ERROR_DETAIL_TYPE_URL@).len() <= 64,
{
    broadcast use is_ascii_chars_encode_utf8;

    reveal_strlit("type.googleapis.com/chronos.tso.v1.ErrorDetail");
    assert(is_ascii_chars(ERROR_DETAIL_TYPE_URL@));
}

/// The error detail inside a written status is read back unchanged, whatever the code and the
/// message of the status.
pub proof fn details_of_written_statuses_read_back(
    code: i32,
    message: Seq<char>,
    detail: ErrorDetailView,
)
    requires
        status_bytes(code, message, detail).len() <= u64::MAX,
    ensures
        detail_in(status_bytes(code, message, detail)) == Some(detail),
{
    broadcast use {encode_utf8_valid_utf8, encode_utf8_decode_utf8};

    let wrapped = wrapped_bytes(detail);
    if error_detail_bytes(detail).len() > 0 {
        assert(wrapped.len() >= error_detail_bytes(detail).len());
    }
    assert(status_bytes(code, message, detail).len() >= wrapped.len());
    if message.len() == 0 {
        assert(message =~= Seq::<char>::empty());
    }
    lemma_wrapped_reads_back(detail);
    lemma_parts_are_spelled(1, code, 0, Seq::empty());
    lemma_parts_are_spelled(2, 0, 0, message);
    lemma_data_is_spelled(3, wrapped);
    let f1 = int32_fields(1, code);
    let f2 = text_fields(2, message);
    let f3 = seq![WireFieldView { tag: 3, value: WireValueView::Bytes(wrapped) }];
    lemma_spelled_row(text_part(2, message), f2, wire::bytes_field(3, wrapped), f3);
    lemma_spelled_row(
        int32_part(1, code),
        f1,
        text_part(2, message) + wire::bytes_field(3, wrapped),
        f2 + f3,
    );
    lemma_spelled_alone(status_bytes(code, message, detail), f1 + (f2 + f3));
    let typed = TypedValueView {
        type_url: ERROR_DETAIL_TYPE_URL@,
        value: error_detail_bytes(detail),
    };
    let none = Seq::<TypedValueView>::empty();
    lemma_details_row(none, f1, f2 + f3);
    lemma_details_row(none, f2, f3);
    reveal_with_fuel(details_with_fields, 2);
    assert(f3.drop_first() =~= Seq::<WireFieldView>::empty());
    assert(details_with_fields(none, f1) == Some(none));
    assert(details_with_fields(none, f2) == Some(none));
    assert(details_with_fields(none, f3) == Some(none.push(typed)));
    written_error_details_read_back(detail);
    assert(none.push(typed)[0] == typed);
}

proof fn lemma_details_row(
    details: Seq<TypedValueView>,
    a: Seq<WireFieldView>,
    b: Seq<WireFieldView>,
)
    requires
        a.len() <= 1,
    ensures
        details_with_fields(details, a + b) == match details_with_fields(details, a) {
            Some(next) => details_with_fields(next, b),
            None => None,
        },
{
    if a.len() == 0 {
        assert(a + b =~= b);
    } else {
        assert((a + b).drop_first() =~= b);
        assert(a.drop_first() =~= Seq::<WireFieldView>::empty());
        reveal_with_fuel(details_with_fields, 2);
    }
}

/// An error detail that was written bare, outside any status, is read back unchanged too.
pub proof fn bare_error_details_read_back(detail: ErrorDetailView)
    requires
        fits(detail),
    ensures
        detail_in(error_detail_bytes(detail)) == Some(detail),
{
    broadcast use {encode_utf8_valid_utf8, encode_utf8_decode_utf8};

    written_error_details_read_back(detail);
    lemma_detail_is_spelled(detail);
    lemma_spelled_alone(error_detail_bytes(detail), detail_fields(detail));
    let f7 = int32_fields(7, detail.next_step);
    let f6 = int32_fields(6, detail.action_blocker);
    let f5 = text_fields(5, detail.redirect_endpoint);
    let f4 = uint64_fields(4, detail.current_route_version);
    let f3 = uint64_fields(3, detail.current_epoch);
    let f2 = text_fields(2, detail.message);
    let f1 = int32_fields(1, detail.code);
    let none = Seq::<TypedValueView>::empty();
    reveal_with_fuel(details_with_fields, 2);
    lemma_details_row(none, f1, f2 + (f3 + (f4 + (f5 + (f6 + f7)))));
    lemma_details_row(none, f2, f3 + (f4 + (f5 + (f6 + f7))));
    lemma_details_row(none, f3, f4 + (f5 + (f6 + f7)));
    lemma_details_row(none, f4, f5 + (f6 + f7));
    lemma_details_row(none, f5, f6 + f7);
    lemma_details_row(none, f6, f7);
    assert(details_with_fields(none, f1) == Some(none));
    assert(details_with_fields(none, f2) == Some(none));
    assert(details_with_fields(none, f4) == Some(none));
    assert(details_with_fields(none, f5) == Some(none));
    assert(details_with_fields(none, f6) == Some(none));
    assert(details_with_fields(none, f7) == Some(none));
}

/// A number behind a key byte; zero is left out.
pub open spec fn keyed_number(key: u8, value: nat) -> Seq<u8> {
    if value == 0 {
        Seq::empty()
    } else {
        seq![key] + wire::varint_bytes(value)
    }
}

/// Data behind a key byte and its length; empty data is left out.
pub open spec fn keyed_data(key: u8, data: Seq<u8>) -> Seq<u8> {
    if data.len() == 0 {
        Seq::empty()
    } else {
        seq![key] + wire::varint_bytes(data.len()) + data
    }
}

/// Error details, the values that wrap them and statuses are written in the order of their fields,
/// each field behind the one byte that is its key: eight times its number, and two more for text
/// and data.
pub proof fn details_are_written_field_by_field(
    code: i32,
    message: Seq<char>,
    detail: ErrorDetailView,
)
    requires
        detail.code >= 0,
        detail.action_blocker >= 0,
        detail.next_step >= 0,
        code >= 0,
    ensures
        error_detail_bytes(detail) == keyed_number(8, detail.code as nat) + (keyed_data(
            18,
            encode_utf8(detail.message),
        ) + (keyed_number(24, detail.current_epoch as nat) + (keyed_number(
            32,
            detail.current_route_version as nat,
        ) + (keyed_data(42, encode_utf8(detail.redirect_endpoint)) + (keyed_number(
            48,
            detail.action_blocker as nat,
        ) + keyed_number(56, detail.next_step as nat)))))),
        wrapped_bytes(detail) == keyed_data(
            10,
            encode_utf8("type.googleapis.com/chronos.tso.v1.ErrorDetail"@),
        ) + keyed_data(18, error_detail_bytes(detail)),
        wrapped_bytes(detail).len() > 0 ==> status_bytes(code, message, detail) == keyed_number(
            8,
            code as nat,
        ) + (keyed_data(18, encode_utf8(message)) + keyed_data(26, wrapped_bytes(detail))),
{
    lemma_number_is_keyed(1, 8, detail.code as u64);
    lemma_text_is_keyed(2, 18, detail.message);
    lemma_number_is_keyed(3, 24, detail.current_epoch);
    lemma_number_is_keyed(4, 32, detail.current_route_version);
    lemma_text_is_keyed(5, 42, detail.redirect_endpoint);
    lemma_number_is_keyed(6, 48, detail.action_blocker as u64);
    lemma_number_is_keyed(7, 56, detail.next_step as u64);
    lemma_text_is_keyed(1, 10, ERROR_DETAIL_TYPE_URL@);
    lemma_data_is_keyed(2, 18, error_detail_bytes(detail));
    lemma_number_is_keyed(1, 8, code as u64);
    lemma_text_is_keyed(2, 18, message);
    lemma_data_is_keyed(3, 26, wrapped_bytes(detail));
}

proof fn lemma_number_is_keyed(tag: nat, key: u8, value: u64)
    requires
        key == 8 * tag,
        key < 128,
    ensures
        uint64_part(tag, value) == keyed_number(key, value as nat),
{
    assert(wire::varint_bytes(8 * tag) =~= seq![key]);
}

proof fn lemma_data_is_keyed(tag: nat, key: u8, data: Seq<u8>)
    requires
        key == 8 * tag + 2,
        key < 128,
    ensures
        data_part(tag, data) == keyed_data(key, data),
{
    assert(wire::varint_bytes(8 * tag + 2) =~= seq![key]);
}

proof fn lemma_text_is_keyed(tag: nat, key: u8, value: Seq<char>)
    requires
        key == 8 * tag + 2,
        key < 128,
    ensures
        text_part(tag, value) == keyed_data(key, encode_utf8(value)),
{
    lemma_data_is_keyed(tag, key, encode_utf8(value));
    if value.len() > 0 {
        assert(encode_utf8(value).len() > 0);
    }
}

/// An error detail is recognised by a type URL that ends in its name after a slash.
pub proof fn details_are_recognised_by_name(host: Seq<char>)
    ensures
        names_error_detail(host + "/chronos.tso.v1.ErrorDetail"@),
        names_error_detail("type.googleapis.com/chronos.tso.v1.ErrorDetail"@),
{
    let name = "/chronos.tso.v1.ErrorDetail"@;
    assert((host + name).skip(host.len() as int) =~= name);
}

} // verus!
