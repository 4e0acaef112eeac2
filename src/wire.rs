//! The protobuf wire format: varints and the field stream of one message.
use vstd::prelude::*;
use vstd::utf8::{decode_utf8, valid_utf8};
use crate::bytes::{bytes_of, bytes_range};
use crate::primitives::utf8_string;

verus! {

/// Failure to read a message from its bytes.
#[derive(Debug, PartialEq, Eq)]
pub enum WireError {
    /// The bytes are not a well-formed field stream.
    Malformed,
    /// A field holds a value of a wire type its schema does not give it.
    WrongType,
    /// A string field holds bytes that are not UTF-8.
    NotUtf8,
}

/// The value of one field as the wire carries it.
pub enum WireValue {
    Varint(u64),
    Fixed64(Vec<u8>),
    Bytes(Vec<u8>),
    Fixed32(Vec<u8>),
}

/// One field of a message: its number and its value.
pub struct Field {
    pub number: u64,
    pub value: WireValue,
}

pub enum WireValueView {
    Varint(u64),
    Fixed64(Seq<u8>),
    Bytes(Seq<u8>),
    Fixed32(Seq<u8>),
}

pub struct FieldView {
    pub number: u64,
    pub value: WireValueView,
}

impl View for WireValue {
    type V = WireValueView;

    open spec fn view(&self) -> WireValueView {
        match self {
            WireValue::Varint(v) => WireValueView::Varint(*v),
            WireValue::Fixed64(b) => WireValueView::Fixed64(b@),
            WireValue::Bytes(b) => WireValueView::Bytes(b@),
            WireValue::Fixed32(b) => WireValueView::Fixed32(b@),
        }
    }
}

impl View for Field {
    type V = FieldView;

    open spec fn view(&self) -> FieldView {
        FieldView { number: self.number, value: self.value@ }
    }
}

pub open spec fn fields_view(fs: Seq<Field>) -> Seq<FieldView> {
    fs.map_values(|f: Field| f@)
}

pub open spec fn pow128(k: nat) -> int
    decreases k,
{
    if k == 0 {
        1
    } else {
        128 * pow128((k - 1) as nat)
    }
}

/// The varint starting at `pos`, read from its byte `k` on with `acc` the
/// value of the bytes before it: the value and the position after it. A
/// varint has at most ten bytes.
pub open spec fn varint_from(s: Seq<u8>, pos: int, k: nat, acc: int) -> Option<(int, int)>
    decreases 10 - k,
{
    if k >= 10 || pos < 0 || pos + k >= s.len() {
        None
    } else {
        let b = s[pos + k];
        let acc2 = acc + (b % 128) as int * pow128(k);
        if b < 128 {
            Some((acc2, pos + k + 1))
        } else {
            varint_from(s, pos, k + 1, acc2)
        }
    }
}

/// The varint at `pos` and the position after it, when its value fits in 64 bits.
pub open spec fn varint_at(s: Seq<u8>, pos: int) -> Option<(u64, int)> {
    match varint_from(s, pos, 0, 0) {
        Some((v, e)) => if v <= u64::MAX {
            Some((v as u64, e))
        } else {
            None
        },
        None => None,
    }
}

proof fn lemma_varint_from_grows(s: Seq<u8>, pos: int, k: nat, acc: int)
    requires
        acc >= 0,
    ensures
        varint_from(s, pos, k, acc) matches Some((v, e)) ==> v >= acc && e > pos + k,
    decreases 10 - k,
{
    if k < 10 && 0 <= pos && pos + k < s.len() {
        let b = s[pos + k];
        lemma_pow128_pos(k);
        assert((b % 128) as int * pow128(k) >= 0) by (nonlinear_arith)
            requires
                pow128(k) > 0,
        ;
        if b >= 128 {
            lemma_varint_from_grows(s, pos, k + 1, acc + (b % 128) as int * pow128(k));
        }
    }
}

proof fn lemma_pow128_pos(k: nat)
    ensures
        pow128(k) > 0,
    decreases k,
{
    if k > 0 {
        lemma_pow128_pos((k - 1) as nat);
    }
}

proof fn lemma_pow128_bound(k: nat)
    requires
        k <= 9,
    ensures
        pow128(k) <= 0x8000_0000_0000_0000,
{
    reveal_with_fuel(pow128, 10);
    assert(pow128(9) == 0x8000_0000_0000_0000);
    if k < 9 {
        lemma_pow128_mono(k, 9);
    }
}

proof fn lemma_pow128_mono(a: nat, b: nat)
    requires
        a <= b,
    ensures
        pow128(a) <= pow128(b),
    decreases b - a,
{
    if a < b {
        lemma_pow128_mono(a, (b - 1) as nat);
        lemma_pow128_pos((b - 1) as nat);
    }
}

/// Reads the varint at `pos`: its value and the position after it.
pub fn read_varint(s: &[u8], pos: usize) -> (r: Option<(u64, usize)>)
    ensures
        match varint_at(s@, pos as int) {
            Some((v, e)) => r matches Some((v2, e2)) && v2 == v && e2 as int == e,
            None => r is None,
        },
{
    let mut k: usize = 0;
    let mut acc: u128 = 0;
    let mut scale: u128 = 1;
    while k < 10
        invariant
            0 <= k <= 10,
            acc <= u64::MAX,
            scale as int == pow128(k as nat),
            varint_from(s@, pos as int, 0, 0) == varint_from(s@, pos as int, k as nat, acc as int),
        decreases 10 - k,
    {
        if pos >= s.len() || s.len() - pos <= k {
            return None;
        }
        let b = s[pos + k];
        proof {
            lemma_pow128_bound(k as nat);
        }
        let low: u128 = (b % 128) as u128;
        assert(low * scale <= 127 * 0x8000_0000_0000_0000) by (nonlinear_arith)
            requires
                low <= 127,
                scale <= 0x8000_0000_0000_0000,
        ;
        let part: u128 = low * scale;
        let acc2: u128 = acc + part;
        if acc2 > u64::MAX as u128 {
            proof {
                if b >= 128 {
                    lemma_varint_from_grows(s@, pos as int, (k + 1) as nat, acc2 as int);
                }
            }
            return None;
        }
        if b < 128 {
            proof {
                lemma_varint_from_grows(s@, pos as int, k as nat, acc as int);
            }
            let end: usize = pos + k + 1;
            return Some((acc2 as u64, end));
        }
        acc = acc2;
        scale = scale * 128;
        k = k + 1;
    }
    None
}

/// The field starting at `pos` and the position after it. The key is a
/// varint holding the field number (never 0) and the wire type: 0 varint,
/// 1 eight bytes, 2 a varint length and that many bytes, 5 four bytes.
pub open spec fn field_at(s: Seq<u8>, pos: int) -> Option<(FieldView, int)> {
    match varint_at(s, pos) {
        None => None,
        Some((key, p1)) => {
            let number = key / 8;
            let wire_type = key % 8;
            if number == 0 {
                None
            } else if wire_type == 0 {
                match varint_at(s, p1) {
                    Some((v, p2)) => Some((FieldView { number, value: WireValueView::Varint(v) }, p2)),
                    None => None,
                }
            } else if wire_type == 1 {
                if p1 + 8 <= s.len() {
                    Some((FieldView { number, value: WireValueView::Fixed64(s.subrange(p1, p1 + 8)) }, p1 + 8))
                } else {
                    None
                }
            } else if wire_type == 2 {
                match varint_at(s, p1) {
                    Some((len, p2)) => if p2 + len <= s.len() {
                        Some((FieldView { number, value: WireValueView::Bytes(s.subrange(p2, p2 + len)) }, p2 + len))
                    } else {
                        None
                    },
                    None => None,
                }
            } else if wire_type == 5 {
                if p1 + 4 <= s.len() {
                    Some((FieldView { number, value: WireValueView::Fixed32(s.subrange(p1, p1 + 4)) }, p1 + 4))
                } else {
                    None
                }
            } else {
                None
            }
        },
    }
}

proof fn lemma_varint_at_advances(s: Seq<u8>, pos: int)
    ensures
        varint_at(s, pos) matches Some((v, e)) ==> pos < e <= s.len(),
{
    lemma_varint_from_grows(s, pos, 0, 0);
    lemma_varint_from_bounded(s, pos, 0, 0);
}

proof fn lemma_varint_from_bounded(s: Seq<u8>, pos: int, k: nat, acc: int)
    ensures
        varint_from(s, pos, k, acc) matches Some((v, e)) ==> e <= s.len(),
    decreases 10 - k,
{
    if k < 10 && 0 <= pos && pos + k < s.len() {
        let b = s[pos + k];
        if b >= 128 {
            lemma_varint_from_bounded(s, pos, k + 1, acc + (b % 128) as int * pow128(k));
        }
    }
}

proof fn lemma_field_at_advances(s: Seq<u8>, pos: int)
    ensures
        field_at(s, pos) matches Some((f, e)) ==> pos < e <= s.len(),
{
    lemma_varint_at_advances(s, pos);
    if let Some((key, p1)) = varint_at(s, pos) {
        lemma_varint_at_advances(s, p1);
    }
}

/// The fields of the message held in `s` from `pos` to its end, in order.
pub open spec fn fields_from(s: Seq<u8>, pos: int) -> Option<Seq<FieldView>>
    decreases s.len() - pos,
{
    if pos < 0 || pos >= s.len() {
        Some(Seq::empty())
    } else {
        match field_at(s, pos) {
            Some((f, next)) => if pos < next <= s.len() {
                match fields_from(s, next) {
                    Some(rest) => Some(seq![f] + rest),
                    None => None,
                }
            } else {
                None
            },
            None => None,
        }
    }
}

/// The fields of the message whose bytes are `s`.
pub open spec fn fields_of(s: Seq<u8>) -> Option<Seq<FieldView>> {
    fields_from(s, 0)
}

/// Reads the field at `pos`.
fn read_field(s: &[u8], pos: usize) -> (r: Option<(Field, usize)>)
    ensures
        match field_at(s@, pos as int) {
            Some((f, e)) => r matches Some((g, e2)) && g@ == f && e2 == e,
            None => r is None,
        },
{
    proof {
        lemma_varint_at_advances(s@, pos as int);
    }
    let (key, p1) = match read_varint(s, pos) {
        Some(x) => x,
        None => return None,
    };
    proof {
        lemma_varint_at_advances(s@, p1 as int);
    }
    let number = key / 8;
    let wire_type = key % 8;
    if number == 0 {
        None
    } else if wire_type == 0 {
        match read_varint(s, p1) {
            Some((v, p2)) => {
                let f = Field { number, value: WireValue::Varint(v) };
                assert(field_at(s@, pos as int) == Some((f@, p2 as int)));
                Some((f, p2))
            },
            None => None,
        }
    } else if wire_type == 1 {
        if p1 <= s.len() && s.len() - p1 >= 8 {
            let b = bytes_range(s, p1, p1 + 8);
            let f = Field { number, value: WireValue::Fixed64(b) };
            assert(field_at(s@, pos as int) == Some((f@, p1 + 8)));
            Some((f, p1 + 8))
        } else {
            None
        }
    } else if wire_type == 2 {
        match read_varint(s, p1) {
            Some((len, p2)) => if p2 <= s.len() && (s.len() - p2) as u64 >= len {
                let end = p2 + len as usize;
                let b = bytes_range(s, p2, end);
                let f = Field { number, value: WireValue::Bytes(b) };
                assert(field_at(s@, pos as int) == Some((f@, end as int)));
                Some((f, end))
            } else {
                None
            },
            None => None,
        }
    } else if wire_type == 5 {
        if p1 <= s.len() && s.len() - p1 >= 4 {
            let b = bytes_range(s, p1, p1 + 4);
            Some((Field { number, value: WireValue::Fixed32(b) }, p1 + 4))
        } else {
            None
        }
    } else {
        None
    }
}

/// Splits the bytes of one message into its fields.
pub fn parse_fields(s: &[u8]) -> (r: Option<Vec<Field>>)
    ensures
        match fields_of(s@) {
            Some(fs) => r matches Some(v) && fields_view(v@) == fs,
            None => r is None,
        },
{
    let mut out: Vec<Field> = Vec::new();
    let mut pos: usize = 0;
    while pos < s.len()
        invariant
            0 <= pos <= s@.len(),
            fields_of(s@) == (match fields_from(s@, pos as int) {
                Some(rest) => Some(fields_view(out@) + rest),
                None => None::<Seq<FieldView>>,
            }),
        decreases s@.len() - pos,
    {
        proof {
            lemma_field_at_advances(s@, pos as int);
        }
        match read_field(s, pos) {
            Some((f, next)) => {
                let ghost prev = fields_view(out@);
                let ghost fv = f@;
                out.push(f);
                proof {
                    assert(fields_view(out@) =~= prev.push(fv));
                    if let Some(rest) = fields_from(s@, next as int) {
                        assert(prev + (seq![fv] + rest) =~= prev.push(fv) + rest);
                    }
                }
                pos = next;
            },
            None => {
                return None;
            },
        }
    }
    proof {
        assert(fields_view(out@) + Seq::<FieldView>::empty() =~= fields_view(out@));
    }
    Some(out)
}

/// The value of the last field numbered `n`; a later field overrides an earlier one.
pub open spec fn last_field(fs: Seq<FieldView>, n: u64) -> Option<WireValueView>
    decreases fs.len(),
{
    if fs.len() == 0 {
        None
    } else if fs.last().number == n {
        Some(fs.last().value)
    } else {
        last_field(fs.drop_last(), n)
    }
}

/// Field `n` as a varint: `None` when it holds another wire type, `Some(None)` when absent.
pub open spec fn varint_field(fs: Seq<FieldView>, n: u64) -> Option<Option<u64>> {
    match last_field(fs, n) {
        None => Some(None),
        Some(WireValueView::Varint(v)) => Some(Some(v)),
        Some(_) => None,
    }
}

/// Field `n` as length-delimited bytes.
pub open spec fn bytes_field(fs: Seq<FieldView>, n: u64) -> Option<Option<Seq<u8>>> {
    match last_field(fs, n) {
        None => Some(None),
        Some(WireValueView::Bytes(b)) => Some(Some(b)),
        Some(_) => None,
    }
}

/// Field `n` as a UTF-8 string.
pub open spec fn string_field(fs: Seq<FieldView>, n: u64) -> Option<Option<Seq<char>>> {
    match bytes_field(fs, n) {
        None => None,
        Some(None) => Some(None),
        Some(Some(b)) => if valid_utf8(b) {
            Some(Some(decode_utf8(b)))
        } else {
            None
        },
    }
}

/// Field `n` as eight little-endian bytes.
pub open spec fn fixed64_field(fs: Seq<FieldView>, n: u64) -> Option<Option<Seq<u8>>> {
    match last_field(fs, n) {
        None => Some(None),
        Some(WireValueView::Fixed64(b)) => Some(Some(b)),
        Some(_) => None,
    }
}

/// Field `n` as four little-endian bytes.
pub open spec fn fixed32_field(fs: Seq<FieldView>, n: u64) -> Option<Option<Seq<u8>>> {
    match last_field(fs, n) {
        None => Some(None),
        Some(WireValueView::Fixed32(b)) => Some(Some(b)),
        Some(_) => None,
    }
}

/// Every occurrence of the repeated length-delimited field `n`, in order.
pub open spec fn repeated_bytes_field(fs: Seq<FieldView>, n: u64) -> Option<Seq<Seq<u8>>>
    decreases fs.len(),
{
    if fs.len() == 0 {
        Some(Seq::empty())
    } else {
        match repeated_bytes_field(fs.drop_last(), n) {
            None => None,
            Some(prev) => if fs.last().number != n {
                Some(prev)
            } else {
                match fs.last().value {
                    WireValueView::Bytes(b) => Some(prev.push(b)),
                    _ => None,
                }
            },
        }
    }
}

pub open spec fn opt_bytes_view(o: Option<Vec<u8>>) -> Option<Seq<u8>> {
    match o {
        Some(v) => Some(v@),
        None => None,
    }
}

pub open spec fn opt_string_view(o: Option<String>) -> Option<Seq<char>> {
    match o {
        Some(v) => Some(v@),
        None => None,
    }
}

/// The index of the last field numbered `n`.
fn find_last(fs: &Vec<Field>, n: u64) -> (r: Option<usize>)
    ensures
        match r {
            Some(i) => i < fs@.len() && last_field(fields_view(fs@), n) == Some(fs@[i as int].value@),
            None => last_field(fields_view(fs@), n) is None,
        },
{
    let mut i: usize = fs.len();
    assert(fs@.subrange(0, i as int) =~= fs@);
    while i > 0
        invariant
            i <= fs@.len(),
            last_field(fields_view(fs@), n) == last_field(fields_view(fs@.subrange(0, i as int)), n),
        decreases i,
    {
        let ghost sub = fields_view(fs@.subrange(0, i as int));
        assert(sub.last() == fs@[i - 1]@);
        if fs[i - 1].number == n {
            return Some(i - 1);
        }
        assert(sub.drop_last() =~= fields_view(fs@.subrange(0, i - 1)));
        i = i - 1;
    }
    None
}

/// Field `n` as a varint.
pub fn get_varint(fs: &Vec<Field>, n: u64) -> (r: Result<Option<u64>, WireError>)
    ensures
        match varint_field(fields_view(fs@), n) {
            Some(o) => r == Ok::<Option<u64>, WireError>(o),
            None => r == Err::<Option<u64>, WireError>(WireError::WrongType),
        },
{
    match find_last(fs, n) {
        None => Ok(None),
        Some(i) => match &fs[i].value {
            WireValue::Varint(v) => Ok(Some(*v)),
            _ => Err(WireError::WrongType),
        },
    }
}

/// Field `n` as length-delimited bytes.
pub fn get_bytes(fs: &Vec<Field>, n: u64) -> (r: Result<Option<Vec<u8>>, WireError>)
    ensures
        match bytes_field(fields_view(fs@), n) {
            Some(o) => r matches Ok(v) && opt_bytes_view(v) == o,
            None => r == Err::<Option<Vec<u8>>, WireError>(WireError::WrongType),
        },
{
    match find_last(fs, n) {
        None => Ok(None),
        Some(i) => match &fs[i].value {
            WireValue::Bytes(b) => Ok(Some(bytes_of(b.as_slice()))),
            _ => Err(WireError::WrongType),
        },
    }
}

/// Field `n` as eight bytes.
pub fn get_fixed64(fs: &Vec<Field>, n: u64) -> (r: Result<Option<Vec<u8>>, WireError>)
    ensures
        match fixed64_field(fields_view(fs@), n) {
            Some(o) => r matches Ok(v) && opt_bytes_view(v) == o,
            None => r == Err::<Option<Vec<u8>>, WireError>(WireError::WrongType),
        },
{
    match find_last(fs, n) {
        None => Ok(None),
        Some(i) => match &fs[i].value {
            WireValue::Fixed64(b) => Ok(Some(bytes_of(b.as_slice()))),
            _ => Err(WireError::WrongType),
        },
    }
}

/// Field `n` as four bytes.
pub fn get_fixed32(fs: &Vec<Field>, n: u64) -> (r: Result<Option<Vec<u8>>, WireError>)
    ensures
        match fixed32_field(fields_view(fs@), n) {
            Some(o) => r matches Ok(v) && opt_bytes_view(v) == o,
            None => r == Err::<Option<Vec<u8>>, WireError>(WireError::WrongType),
        },
{
    match find_last(fs, n) {
        None => Ok(None),
        Some(i) => match &fs[i].value {
            WireValue::Fixed32(b) => Ok(Some(bytes_of(b.as_slice()))),
            _ => Err(WireError::WrongType),
        },
    }
}

/// Field `n` as a UTF-8 string.
pub fn get_string(fs: &Vec<Field>, n: u64) -> (r: Result<Option<String>, WireError>)
    ensures
        match string_field(fields_view(fs@), n) {
            Some(o) => r matches Ok(v) && opt_string_view(v) == o,
            None => r is Err,
        },
{
    match get_bytes(fs, n) {
        Err(e) => Err(e),
        Ok(None) => Ok(None),
        Ok(Some(b)) => match utf8_string(b) {
            Some(st) => Ok(Some(st)),
            None => Err(WireError::NotUtf8),
        },
    }
}

pub open spec fn bytes_list_view(v: Seq<Vec<u8>>) -> Seq<Seq<u8>> {
    v.map_values(|b: Vec<u8>| b@)
}

/// Every occurrence of the repeated length-delimited field `n`, in order.
pub fn get_repeated_bytes(fs: &Vec<Field>, n: u64) -> (r: Result<Vec<Vec<u8>>, WireError>)
    ensures
        match repeated_bytes_field(fields_view(fs@), n) {
            Some(bs) => r matches Ok(v) && bytes_list_view(v@) == bs,
            None => r is Err,
        },
{
    let mut out: Vec<Vec<u8>> = Vec::new();
    let mut i: usize = 0;
    while i < fs.len()
        invariant
            i <= fs@.len(),
            repeated_bytes_field(fields_view(fs@.subrange(0, i as int)), n) == Some(bytes_list_view(out@)),
        decreases fs@.len() - i,
    {
        let ghost sub = fields_view(fs@.subrange(0, i + 1));
        assert(sub.drop_last() =~= fields_view(fs@.subrange(0, i as int)));
        assert(sub.last() == fs@[i as int]@);
        if fs[i].number == n {
            match &fs[i].value {
                WireValue::Bytes(b) => {
                    let ghost prev = bytes_list_view(out@);
                    let c = bytes_of(b.as_slice());
                    out.push(c);
                    assert(bytes_list_view(out@) =~= prev.push(b@));
                },
                _ => {
                    proof {
                        lemma_repeated_bytes_stays_none(fs@, i as int + 1, n);
                    }
                    return Err(WireError::WrongType);
                },
            }
        }
        i = i + 1;
    }
    assert(fs@.subrange(0, fs@.len() as int) =~= fs@);
    Ok(out)
}

proof fn lemma_repeated_bytes_stays_none(fs: Seq<Field>, i: int, n: u64)
    requires
        0 <= i <= fs.len(),
        repeated_bytes_field(fields_view(fs.subrange(0, i)), n) is None,
    ensures
        repeated_bytes_field(fields_view(fs), n) is None,
    decreases fs.len() - i,
{
    if i < fs.len() {
        let sub = fields_view(fs.subrange(0, i + 1));
        assert(sub.drop_last() =~= fields_view(fs.subrange(0, i)));
        lemma_repeated_bytes_stays_none(fs, i + 1, n);
    } else {
        assert(fs.subrange(0, i) =~= fs);
    }
}

/// Field `n` as a `uint32`: the varint's low 32 bits.
pub open spec fn u32_field(fs: Seq<FieldView>, n: u64) -> Option<Option<u32>> {
    match varint_field(fs, n) {
        None => None,
        Some(None) => Some(None),
        Some(Some(v)) => Some(Some(v as u32)),
    }
}

/// Field `n` as an `int32`: the varint's low 32 bits, signed.
pub open spec fn i32_field(fs: Seq<FieldView>, n: u64) -> Option<Option<i32>> {
    match varint_field(fs, n) {
        None => None,
        Some(None) => Some(None),
        Some(Some(v)) => Some(Some(v as i32)),
    }
}

/// Field `n` as an `int64`: the varint's 64 bits, signed.
pub open spec fn i64_field(fs: Seq<FieldView>, n: u64) -> Option<Option<i64>> {
    match varint_field(fs, n) {
        None => None,
        Some(None) => Some(None),
        Some(Some(v)) => Some(Some(v as i64)),
    }
}

/// Field `n` as a `bool`: any varint other than 0 is true.
pub open spec fn bool_field(fs: Seq<FieldView>, n: u64) -> Option<Option<bool>> {
    match varint_field(fs, n) {
        None => None,
        Some(None) => Some(None),
        Some(Some(v)) => Some(Some(v != 0)),
    }
}

pub fn get_u32(fs: &Vec<Field>, n: u64) -> (r: Result<Option<u32>, WireError>)
    ensures
        match u32_field(fields_view(fs@), n) {
            Some(o) => r == Ok::<Option<u32>, WireError>(o),
            None => r is Err,
        },
{
    match get_varint(fs, n) {
        Err(e) => Err(e),
        Ok(None) => Ok(None),
        Ok(Some(v)) => Ok(Some(v as u32)),
    }
}

pub fn get_i32(fs: &Vec<Field>, n: u64) -> (r: Result<Option<i32>, WireError>)
    ensures
        match i32_field(fields_view(fs@), n) {
            Some(o) => r == Ok::<Option<i32>, WireError>(o),
            None => r is Err,
        },
{
    match get_varint(fs, n) {
        Err(e) => Err(e),
        Ok(None) => Ok(None),
        Ok(Some(v)) => Ok(Some(v as i32)),
    }
}

pub fn get_i64(fs: &Vec<Field>, n: u64) -> (r: Result<Option<i64>, WireError>)
    ensures
        match i64_field(fields_view(fs@), n) {
            Some(o) => r == Ok::<Option<i64>, WireError>(o),
            None => r is Err,
        },
{
    match get_varint(fs, n) {
        Err(e) => Err(e),
        Ok(None) => Ok(None),
        Ok(Some(v)) => Ok(Some(v as i64)),
    }
}

pub fn get_bool(fs: &Vec<Field>, n: u64) -> (r: Result<Option<bool>, WireError>)
    ensures
        match bool_field(fields_view(fs@), n) {
            Some(o) => r == Ok::<Option<bool>, WireError>(o),
            None => r is Err,
        },
{
    match get_varint(fs, n) {
        Err(e) => Err(e),
        Ok(None) => Ok(None),
        Ok(Some(v)) => Ok(Some(v != 0)),
    }
}

} // verus!
