//! The protocol-buffer fields of snapshot blobs.
use vstd::prelude::*;

verus! {

/// The number of values of a 64-bit word.
pub open spec fn word() -> nat {
    0x1_0000_0000_0000_0000
}

/// 128 to the power `i`.
pub open spec fn pow128(i: nat) -> nat
    decreases i,
{
    if i == 0 {
        1
    } else {
        128 * pow128((i - 1) as nat)
    }
}

/// Reads the groups of seven bits of a varint at `pos`, the lowest first, into a 64-bit word:
/// `i` groups worth `acc` are read. A varint has at most ten bytes; its last one is below 128.
/// Gives the word and the position behind it.
pub open spec fn varint_from(data: Seq<u8>, pos: int, i: nat, acc: nat) -> Option<(nat, int)>
    decreases 10 - i,
{
    if i >= 10 || pos < 0 || pos >= data.len() {
        None
    } else {
        let next = acc + (data[pos] as nat % 128) * pow128(i);
        if data[pos] < 128 {
            Some((next % word(), pos + 1))
        } else {
            varint_from(data, pos + 1, i + 1, next)
        }
    }
}

/// The varint at `pos` and the position behind it.
pub open spec fn varint_at(data: Seq<u8>, pos: int) -> Option<(nat, int)> {
    varint_from(data, pos, 0, 0)
}

/// One field of a message.
#[verifier::ext_equal]
pub enum FieldModel {
    Varint { number: nat, value: nat },
    Fixed64 { number: nat, bytes: Seq<u8> },
    Payload { number: nat, bytes: Seq<u8> },
    Fixed32 { number: nat, bytes: Seq<u8> },
}

/// The field at `pos` and the position behind it; `None` where no whole field of a known wire
/// type stands there.
pub open spec fn field_at(data: Seq<u8>, pos: int) -> Option<(FieldModel, int)> {
    match varint_at(data, pos) {
        Some((tag, body)) => {
            let number = tag / 8;
            let wire = tag % 8;
            if wire == 0 {
                match varint_at(data, body) {
                    Some((value, end)) => Some((FieldModel::Varint { number, value }, end)),
                    None => None,
                }
            } else if wire == 1 {
                if body + 8 <= data.len() {
                    Some(
                        (
                            FieldModel::Fixed64 { number, bytes: data.subrange(body, body + 8) },
                            body + 8,
                        ),
                    )
                } else {
                    None
                }
            } else if wire == 2 {
                match varint_at(data, body) {
                    Some((len, start)) => if start + len <= data.len() {
                        Some(
                            (
                                FieldModel::Payload {
                                    number,
                                    bytes: data.subrange(start, start + len),
                                },
                                start + len,
                            ),
                        )
                    } else {
                        None
                    },
                    None => None,
                }
            } else if wire == 5 {
                if body + 4 <= data.len() {
                    Some(
                        (
                            FieldModel::Fixed32 { number, bytes: data.subrange(body, body + 4) },
                            body + 4,
                        ),
                    )
                } else {
                    None
                }
            } else {
                None
            }
        },
        None => None,
    }
}

/// The fields from `pos` on, up to the end or to what is no field.
pub open spec fn fields_from(data: Seq<u8>, pos: int) -> Seq<FieldModel>
    decreases data.len() - pos,
    via fields_from_decreases
{
    if pos < 0 || pos >= data.len() {
        Seq::empty()
    } else {
        match field_at(data, pos) {
            Some((f, end)) => seq![f] + fields_from(data, end),
            None => Seq::empty(),
        }
    }
}

proof fn lemma_varint_advances(data: Seq<u8>, pos: int, i: nat, acc: nat)
    ensures
        match varint_from(data, pos, i, acc) {
            Some((_, end)) => pos < end <= data.len(),
            None => true,
        },
    decreases 10 - i,
{
    if i < 10 && 0 <= pos < data.len() && data[pos] >= 128 {
        lemma_varint_advances(
            data,
            pos + 1,
            i + 1,
            acc + (data[pos] as nat % 128) * pow128(i),
        );
    }
}

proof fn lemma_field_advances(data: Seq<u8>, pos: int)
    ensures
        match field_at(data, pos) {
            Some((_, end)) => pos < end <= data.len(),
            None => true,
        },
{
    lemma_varint_advances(data, pos, 0, 0);
    if let Some((_, body)) = varint_at(data, pos) {
        lemma_varint_advances(data, body, 0, 0);
    }
}

#[via_fn]
proof fn fields_from_decreases(data: Seq<u8>, pos: int) {
    lemma_field_advances(data, pos);
}

/// The leading fields of a message.
pub open spec fn fields(data: Seq<u8>) -> Seq<FieldModel> {
    fields_from(data, 0)
}

/// The payloads of 32 bytes in the fields of number `number`, in order.
pub open spec fn refs_in(fs: Seq<FieldModel>, number: nat) -> Seq<Seq<u8>>
    decreases fs.len(),
{
    if fs.len() == 0 {
        Seq::empty()
    } else {
        let rest = refs_in(fs.skip(1), number);
        match fs[0] {
            FieldModel::Payload { number: n, bytes } => if n == number && bytes.len() == 32 {
                seq![bytes] + rest
            } else {
                rest
            },
            _ => rest,
        }
    }
}

/// The payload of the first field of number `number` that has one.
pub open spec fn payload_in(fs: Seq<FieldModel>, number: nat) -> Option<Seq<u8>>
    decreases fs.len(),
{
    if fs.len() == 0 {
        None
    } else {
        match fs[0] {
            FieldModel::Payload { number: n, bytes } => if n == number {
                Some(bytes)
            } else {
                payload_in(fs.skip(1), number)
            },
            _ => payload_in(fs.skip(1), number),
        }
    }
}

/// The value of the first varint field of number `number`.
pub open spec fn value_in(fs: Seq<FieldModel>, number: nat) -> Option<nat>
    decreases fs.len(),
{
    if fs.len() == 0 {
        None
    } else {
        match fs[0] {
            FieldModel::Varint { number: n, value } => if n == number {
                Some(value)
            } else {
                value_in(fs.skip(1), number)
            },
            _ => value_in(fs.skip(1), number),
        }
    }
}

/// A field as it stands in a message: what it is and where its bytes are.
enum Field {
    Varint { number: u64, value: u64, end: usize },
    Payload { number: u64, start: usize, end: usize },
    Fixed { end: usize },
}

/// What a `Field` says about `field_at`.
spec fn describes(f: Option<Field>, data: Seq<u8>, pos: int) -> bool {
    match f {
        Some(Field::Varint { number, value, end }) => field_at(data, pos) == Some(
            (FieldModel::Varint { number: number as nat, value: value as nat }, end as int),
        ) && pos < end <= data.len(),
        Some(Field::Payload { number, start, end }) => field_at(data, pos) == Some(
            (
                FieldModel::Payload {
                    number: number as nat,
                    bytes: data.subrange(start as int, end as int),
                },
                end as int,
            ),
        ) && pos < start <= end <= data.len(),
        Some(Field::Fixed { end }) => match field_at(data, pos) {
            Some((f, after)) => (f is Fixed64 || f is Fixed32) && after == end && pos < end
                <= data.len(),
            None => false,
        },
        None => field_at(data, pos) is None,
    }
}

proof fn lemma_pow128()
    ensures
        pow128(0) == 1,
        pow128(1) == 0x80,
        pow128(2) == 0x4000,
        pow128(3) == 0x20_0000,
        pow128(4) == 0x1000_0000,
        pow128(5) == 0x8_0000_0000,
        pow128(6) == 0x400_0000_0000,
        pow128(7) == 0x2_0000_0000_0000,
        pow128(8) == 0x100_0000_0000_0000,
        pow128(9) == 0x8000_0000_0000_0000,
        pow128(10) == 0x40_0000_0000_0000_0000,
{
    reveal_with_fuel(pow128, 11);
}

proof fn lemma_pow128_bound(i: nat)
    requires
        i <= 10,
    ensures
        1 <= pow128(i) <= 0x40_0000_0000_0000_0000,
{
    lemma_pow128();
    if i == 0 {
    } else if i == 1 {
    } else if i == 2 {
    } else if i == 3 {
    } else if i == 4 {
    } else if i == 5 {
    } else if i == 6 {
    } else if i == 7 {
    } else if i == 8 {
    } else if i == 9 {
    } else {
        assert(i == 10);
    }
}

/// The varint at `from`, and the position behind it.
pub fn read_varint(data: &[u8], from: usize) -> (r: Option<(u64, usize)>)
    requires
        from <= data@.len(),
    ensures
        match r {
            Some((value, end)) => varint_at(data@, from as int) == Some((value as nat, end as int))
                && from < end <= data@.len(),
            None => varint_at(data@, from as int) is None,
        },
{
    let mut acc: u128 = 0;
    let mut unit: u128 = 1;
    let mut i: usize = 0;
    while i < 10 && i < data.len() - from
        invariant
            from <= data@.len(),
            i <= 10,
            from + i <= data.len(),
            unit == pow128(i as nat),
            acc < unit,
            varint_at(data@, from as int) == varint_from(data@, from + i, i as nat, acc as nat),
        decreases 10 - i,
    {
        let b: u8 = data[from + i];
        let group: u128 = (b % 128) as u128;
        proof {
            lemma_pow128_bound(i as nat);
            assert(group * unit <= 127 * unit) by (nonlinear_arith)
                requires
                    group <= 127,
            ;
            assert(group * unit + unit <= 128 * unit) by (nonlinear_arith)
                requires
                    group <= 127,
            ;
        }
        acc = acc + group * unit;
        if b < 128 {
            let word: u128 = acc % 0x1_0000_0000_0000_0000;
            return Some((word as u64, from + i + 1));
        }
        unit = unit * 128;
        i = i + 1;
    }
    None
}

fn read_field(data: &[u8], pos: usize) -> (r: Option<Field>)
    requires
        pos < data@.len(),
    ensures
        describes(r, data@, pos as int),
{
    let (tag, body) = match read_varint(data, pos) {
        Some(found) => found,
        None => {
            return None;
        },
    };
    let number: u64 = tag / 8;
    let wire: u64 = tag % 8;
    if wire == 0 {
        match read_varint(data, body) {
            Some((value, end)) => Some(Field::Varint { number, value, end }),
            None => None,
        }
    } else if wire == 1 {
        if data.len() - body >= 8 {
            Some(Field::Fixed { end: body + 8 })
        } else {
            None
        }
    } else if wire == 2 {
        match read_varint(data, body) {
            Some((len, start)) => {
                if len <= (data.len() - start) as u64 {
                    Some(Field::Payload { number, start, end: start + len as usize })
                } else {
                    None
                }
            },
            None => None,
        }
    } else if wire == 5 {
        if data.len() - body >= 4 {
            Some(Field::Fixed { end: body + 4 })
        } else {
            None
        }
    } else {
        None
    }
}

/// The views of a sequence of hashes.
pub open spec fn hash_views(hashes: Seq<[u8; 32]>) -> Seq<Seq<u8>> {
    hashes.map_values(|h: [u8; 32]| h@)
}

fn hash_at(data: &[u8], start: usize) -> (r: [u8; 32])
    requires
        start + 32 <= data@.len(),
    ensures
        r@ == data@.subrange(start as int, start + 32),
{
    let mut hash: [u8; 32] = [0u8; 32];
    let mut i: usize = 0;
    while i < 32
        invariant
            i <= 32,
            start + 32 <= data.len(),
            forall|k: int| 0 <= k < i ==> hash@[k] == data@[start + k],
        decreases 32 - i,
    {
        hash[i] = data[start + i];
        i = i + 1;
    }
    assert(hash@ =~= data@.subrange(start as int, start + 32));
    hash
}

/// The 32-byte payloads of the fields of number `target_field`, in order.
pub fn collect_32byte_refs(data: &[u8], target_field: u64) -> (r: Vec<[u8; 32]>)
    ensures
        hash_views(r@) == refs_in(fields(data@), target_field as nat),
{
    let mut out: Vec<[u8; 32]> = Vec::new();
    let mut pos: usize = 0;
    let ghost number = target_field as nat;
    assert(hash_views(out@) =~= Seq::<Seq<u8>>::empty());
    while pos < data.len()
        invariant
            pos <= data@.len(),
            number == target_field as nat,
            refs_in(fields(data@), number) == hash_views(out@) + refs_in(
                fields_from(data@, pos as int),
                number,
            ),
        decreases data@.len() - pos,
    {
        let ghost here = fields_from(data@, pos as int);
        match read_field(data, pos) {
            Some(Field::Payload { number: n, start, end }) => {
                assert(here.skip(1) =~= fields_from(data@, end as int));
                if n == target_field && end - start == 32 {
                    let ghost before = out@;
                    out.push(hash_at(data, start));
                    proof {
                        let rest = refs_in(fields_from(data@, end as int), number);
                        let bytes = data@.subrange(start as int, end as int);
                        assert(hash_views(out@) =~= hash_views(before).push(bytes));
                        assert(hash_views(before) + (seq![bytes] + rest) =~= hash_views(out@)
                            + rest);
                    }
                }
                pos = end;
            },
            Some(Field::Varint { end, .. }) => {
                assert(here.skip(1) =~= fields_from(data@, end as int));
                pos = end;
            },
            Some(Field::Fixed { end }) => {
                assert(here.skip(1) =~= fields_from(data@, end as int));
                pos = end;
            },
            None => {
                assert(hash_views(out@) + Seq::<Seq<u8>>::empty() =~= hash_views(out@));
                return out;
            },
        }
    }
    assert(hash_views(out@) + Seq::<Seq<u8>>::empty() =~= hash_views(out@));
    out
}

/// The ids of the message blobs of a snapshot, in order: the 32-byte payloads of field 1.
pub fn extract_field1_blobs(data: &[u8]) -> (r: Vec<[u8; 32]>)
    ensures
        hash_views(r@) == refs_in(fields(data@), 1),
{
    collect_32byte_refs(data, 1)
}

/// The ids of the snapshots from before each summarization, oldest first: the 32-byte payloads of
/// field 13.
pub fn extract_field13_refs(data: &[u8]) -> (r: Vec<[u8; 32]>)
    ensures
        hash_views(r@) == refs_in(fields(data@), 13),
{
    collect_32byte_refs(data, 13)
}

/// The bytes `data[start..end]`.
pub fn copy_range(data: &[u8], start: usize, end: usize) -> (r: Vec<u8>)
    requires
        start <= end <= data@.len(),
    ensures
        r@ == data@.subrange(start as int, end as int),
{
    let mut out: Vec<u8> = Vec::new();
    let mut i: usize = start;
    while i < end
        invariant
            start <= i <= end <= data@.len(),
            out@ == data@.subrange(start as int, i as int),
        decreases end - i,
    {
        out.push(data[i]);
        assert(out@ =~= data@.subrange(start as int, i + 1));
        i = i + 1;
    }
    out
}

/// The payload of the first length-delimited field of number `target_field`.
pub fn extract_ld_field(data: &[u8], target_field: u64) -> (r: Option<Vec<u8>>)
    ensures
        match r {
            Some(bytes) => payload_in(fields(data@), target_field as nat) == Some(bytes@),
            None => payload_in(fields(data@), target_field as nat) is None,
        },
{
    let mut pos: usize = 0;
    let ghost number = target_field as nat;
    while pos < data.len()
        invariant
            pos <= data@.len(),
            number == target_field as nat,
            payload_in(fields(data@), number) == payload_in(
                fields_from(data@, pos as int),
                number,
            ),
        decreases data@.len() - pos,
    {
        let ghost here = fields_from(data@, pos as int);
        match read_field(data, pos) {
            Some(Field::Payload { number: n, start, end }) => {
                assert(here.skip(1) =~= fields_from(data@, end as int));
                if n == target_field {
                    return Some(copy_range(data, start, end));
                }
                pos = end;
            },
            Some(Field::Varint { end, .. }) => {
                assert(here.skip(1) =~= fields_from(data@, end as int));
                pos = end;
            },
            Some(Field::Fixed { end }) => {
                assert(here.skip(1) =~= fields_from(data@, end as int));
                pos = end;
            },
            None => {
                return None;
            },
        }
    }
    None
}

/// The partial assistant message that a snapshot holds inline: the payload of field 4.
pub fn extract_field4_bytes(data: &[u8]) -> (r: Option<Vec<u8>>)
    ensures
        match r {
            Some(bytes) => payload_in(fields(data@), 4) == Some(bytes@),
            None => payload_in(fields(data@), 4) is None,
        },
{
    extract_ld_field(data, 4)
}

/// The workspace of a snapshot, as a `file://` address: the payload of field 9.
pub fn extract_field9_bytes(data: &[u8]) -> (r: Option<Vec<u8>>)
    ensures
        match r {
            Some(bytes) => payload_in(fields(data@), 9) == Some(bytes@),
            None => payload_in(fields(data@), 9) is None,
        },
{
    extract_ld_field(data, 9)
}

fn extract_varint_field(data: &[u8], target_field: u64) -> (r: Option<u64>)
    ensures
        match r {
            Some(value) => value_in(fields(data@), target_field as nat) == Some(value as nat),
            None => value_in(fields(data@), target_field as nat) is None,
        },
{
    let mut pos: usize = 0;
    let ghost number = target_field as nat;
    while pos < data.len()
        invariant
            pos <= data@.len(),
            number == target_field as nat,
            value_in(fields(data@), number) == value_in(fields_from(data@, pos as int), number),
        decreases data@.len() - pos,
    {
        let ghost here = fields_from(data@, pos as int);
        match read_field(data, pos) {
            Some(Field::Varint { number: n, value, end }) => {
                assert(here.skip(1) =~= fields_from(data@, end as int));
                if n == target_field {
                    return Some(value);
                }
                pos = end;
            },
            Some(Field::Payload { end, .. }) => {
                assert(here.skip(1) =~= fields_from(data@, end as int));
                pos = end;
            },
            Some(Field::Fixed { end }) => {
                assert(here.skip(1) =~= fields_from(data@, end as int));
                pos = end;
            },
            None => {
                return None;
            },
        }
    }
    None
}

/// When a snapshot was taken, in milliseconds since the epoch: the value of field 26.
pub fn extract_field26_varint(data: &[u8]) -> (r: Option<u64>)
    ensures
        match r {
            Some(value) => value_in(fields(data@), 26) == Some(value as nat),
            None => value_in(fields(data@), 26) is None,
        },
{
    extract_varint_field(data, 26)
}

// ---------------------------------------------------------------------------
// Laws
// ---------------------------------------------------------------------------

/// A number as a varint: groups of seven bits, the lowest first, all but the last marked.
pub open spec fn encode_varint(n: nat) -> Seq<u8>
    decreases n,
{
    if n < 128 {
        seq![n as u8]
    } else {
        seq![(n % 128 + 128) as u8] + encode_varint(n / 128)
    }
}

/// A field as bytes.
pub open spec fn encode_field(f: FieldModel) -> Seq<u8> {
    match f {
        FieldModel::Varint { number, value } => encode_varint(number * 8) + encode_varint(value),
        FieldModel::Fixed64 { number, bytes } => encode_varint(number * 8 + 1) + bytes,
        FieldModel::Payload { number, bytes } => encode_varint(number * 8 + 2) + encode_varint(
            bytes.len(),
        ) + bytes,
        FieldModel::Fixed32 { number, bytes } => encode_varint(number * 8 + 5) + bytes,
    }
}

/// A field whose numbers fit in 64-bit words and whose fixed parts have their sizes.
pub open spec fn sound_field(f: FieldModel) -> bool {
    match f {
        FieldModel::Varint { number, value } => number * 8 + 7 < word() && value < word(),
        FieldModel::Fixed64 { number, bytes } => number * 8 + 7 < word() && bytes.len() == 8,
        FieldModel::Payload { number, bytes } => number * 8 + 7 < word() && bytes.len() < word(),
        FieldModel::Fixed32 { number, bytes } => number * 8 + 7 < word() && bytes.len() == 4,
    }
}

/// Fields one after the other, as bytes.
pub open spec fn encode_fields(fs: Seq<FieldModel>) -> Seq<u8>
    decreases fs.len(),
{
    if fs.len() == 0 {
        Seq::empty()
    } else {
        encode_field(fs[0]) + encode_fields(fs.skip(1))
    }
}

proof fn lemma_varint_read_back(data: Seq<u8>, pos: int, m: nat, i: nat, acc: nat)
    requires
        i < 10,
        0 <= pos,
        pos + encode_varint(m).len() <= data.len(),
        data.subrange(pos, pos + encode_varint(m).len()) == encode_varint(m),
        acc + m * pow128(i) < word(),
    ensures
        varint_from(data, pos, i, acc) == Some(
            (acc + m * pow128(i), pos + encode_varint(m).len()),
        ),
    decreases m,
{
    lemma_pow128();
    let code = encode_varint(m);
    let p = pow128(i);
    assert(code.len() > 0);
    assert(data[pos] == data.subrange(pos, pos + code.len())[0]);
    if m < 128 {
        assert((data[pos] as nat % 128) == m);
        vstd::arithmetic::div_mod::lemma_small_mod(acc + m * p, word());
    } else {
        let tail = encode_varint(m / 128);
        assert(data[pos] as nat == m % 128 + 128);
        assert(data[pos] as nat % 128 == m % 128);
        assert(pow128(i + 1) == 128 * p);
        assert((m % 128) * p + (m / 128) * (128 * p) == m * p) by (nonlinear_arith)
            requires
                m == (m / 128) * 128 + m % 128,
        ;
        assert(m * p >= 128 * p) by (nonlinear_arith)
            requires
                m >= 128,
        ;
        if i == 9 {
            assert(128 * p == pow128(10));
        }
        assert(data.subrange(pos + 1, pos + 1 + tail.len()) =~= tail) by {
            assert forall|k: int| 0 <= k < tail.len() implies data[pos + 1 + k] == tail[k] by {
                assert(data.subrange(pos, pos + code.len())[k + 1] == code[k + 1]);
            }
        }
        lemma_varint_read_back(data, pos + 1, m / 128, i + 1, acc + (m % 128) * p);
    }
}

/// Reading gives back the number that a varint was written from.
pub proof fn law_varint_round_trip(before: Seq<u8>, n: nat, after: Seq<u8>)
    requires
        n < word(),
    ensures
        varint_at(before + encode_varint(n) + after, before.len() as int) == Some(
            (n, (before.len() + encode_varint(n).len()) as int),
        ),
{
    let data = before + encode_varint(n) + after;
    assert(data.subrange(before.len() as int, (before.len() + encode_varint(n).len()) as int)
        =~= encode_varint(n));
    lemma_pow128();
    lemma_varint_read_back(data, before.len() as int, n, 0, 0);
}

proof fn lemma_tag(before: Seq<u8>, tag: nat, rest: Seq<u8>, data: Seq<u8>)
    requires
        tag < word(),
        data == before + encode_varint(tag) + rest,
    ensures
        varint_at(data, before.len() as int) == Some(
            (tag, (before.len() + encode_varint(tag).len()) as int),
        ),
{
    law_varint_round_trip(before, tag, rest);
}

proof fn lemma_varint_field(before: Seq<u8>, number: nat, value: nat, after: Seq<u8>)
    requires
        number * 8 + 7 < word(),
        value < word(),
    ensures
        ({
            let f = FieldModel::Varint { number, value };
            field_at(before + encode_field(f) + after, before.len() as int) == Some(
                (f, (before.len() + encode_field(f).len()) as int),
            )
        }),
{
    let f = FieldModel::Varint { number, value };
    let data = before + encode_field(f) + after;
    let tag = encode_varint(number * 8);
    let body = encode_varint(value);
    assert(data =~= before + tag + (body + after));
    lemma_tag(before, number * 8, body + after, data);
    assert(data =~= (before + tag) + body + after);
    lemma_tag(before + tag, value, after, data);
}

proof fn lemma_fixed_field(before: Seq<u8>, f: FieldModel, after: Seq<u8>)
    requires
        sound_field(f),
        f is Fixed64 || f is Fixed32,
    ensures
        field_at(before + encode_field(f) + after, before.len() as int) == Some(
            (f, (before.len() + encode_field(f).len()) as int),
        ),
{
    let data = before + encode_field(f) + after;
    let (number, wire, bytes) = match f {
        FieldModel::Fixed64 { number, bytes } => (number, 1nat, bytes),
        FieldModel::Fixed32 { number, bytes } => (number, 5nat, bytes),
        _ => (0nat, 0nat, Seq::<u8>::empty()),
    };
    let tag = encode_varint(number * 8 + wire);
    assert(data =~= before + tag + (bytes + after));
    lemma_tag(before, number * 8 + wire, bytes + after, data);
    let at = (before.len() + tag.len()) as int;
    assert(data.subrange(at, at + bytes.len()) =~= bytes);
}

proof fn lemma_payload_field(before: Seq<u8>, number: nat, bytes: Seq<u8>, after: Seq<u8>)
    requires
        number * 8 + 7 < word(),
        bytes.len() < word(),
    ensures
        ({
            let f = FieldModel::Payload { number, bytes };
            field_at(before + encode_field(f) + after, before.len() as int) == Some(
                (f, (before.len() + encode_field(f).len()) as int),
            )
        }),
{
    let f = FieldModel::Payload { number, bytes };
    let data = before + encode_field(f) + after;
    let tag = encode_varint(number * 8 + 2);
    let len = encode_varint(bytes.len());
    assert(data =~= before + tag + (len + bytes + after));
    lemma_tag(before, number * 8 + 2, len + bytes + after, data);
    assert(data =~= (before + tag) + len + (bytes + after));
    lemma_tag(before + tag, bytes.len(), bytes + after, data);
    let at = (before.len() + tag.len() + len.len()) as int;
    assert(data.subrange(at, at + bytes.len()) =~= bytes);
}

/// Reading gives back the field that bytes were written from.
pub proof fn law_field_round_trip(before: Seq<u8>, f: FieldModel, after: Seq<u8>)
    requires
        sound_field(f),
    ensures
        field_at(before + encode_field(f) + after, before.len() as int) == Some(
            (f, (before.len() + encode_field(f).len()) as int),
        ),
{
    match f {
        FieldModel::Varint { number, value } => lemma_varint_field(before, number, value, after),
        FieldModel::Payload { number, bytes } => lemma_payload_field(before, number, bytes, after),
        _ => lemma_fixed_field(before, f, after),
    }
}

proof fn lemma_fields_read_back(before: Seq<u8>, fs: Seq<FieldModel>)
    requires
        forall|i: int| 0 <= i < fs.len() ==> sound_field(#[trigger] fs[i]),
    ensures
        fields_from(before + encode_fields(fs), before.len() as int) == fs,
    decreases fs.len(),
{
    let data = before + encode_fields(fs);
    if fs.len() > 0 {
        let rest = fs.skip(1);
        let head = encode_field(fs[0]);
        assert(data =~= before + head + encode_fields(rest));
        law_field_round_trip(before, fs[0], encode_fields(rest));
        lemma_field_advances(data, before.len() as int);
        lemma_fields_read_back(before + head, rest);
        assert(data =~= (before + head) + encode_fields(rest));
        assert(seq![fs[0]] + rest =~= fs);
    } else {
        assert(fields_from(data, before.len() as int) =~= fs);
    }
}

/// Reading gives back the fields that a message was written from.
pub proof fn law_fields_round_trip(fs: Seq<FieldModel>)
    requires
        forall|i: int| 0 <= i < fs.len() ==> sound_field(#[trigger] fs[i]),
    ensures
        fields(encode_fields(fs)) == fs,
{
    lemma_fields_read_back(Seq::empty(), fs);
    assert(Seq::<u8>::empty() + encode_fields(fs) =~= encode_fields(fs));
}

proof fn lemma_varint_stays(a: Seq<u8>, b: Seq<u8>, pos: int, i: nat, acc: nat)
    requires
        varint_from(a, pos, i, acc) is Some,
    ensures
        varint_from(a + b, pos, i, acc) == varint_from(a, pos, i, acc),
    decreases 10 - i,
{
    assert((a + b)[pos] == a[pos]);
    if a[pos] >= 128 {
        lemma_varint_stays(a, b, pos + 1, i + 1, acc + (a[pos] as nat % 128) * pow128(i));
    }
}

/// A whole field is read the same whatever follows.
proof fn lemma_field_stays(a: Seq<u8>, b: Seq<u8>, pos: int)
    requires
        field_at(a, pos) is Some,
    ensures
        field_at(a + b, pos) == field_at(a, pos),
{
    lemma_varint_stays(a, b, pos, 0, 0);
    lemma_varint_advances(a, pos, 0, 0);
    let (tag, body) = varint_at(a, pos)->0;
    let wire = tag % 8;
    if wire == 0 {
        lemma_varint_stays(a, b, body, 0, 0);
    } else if wire == 1 {
        assert((a + b).subrange(body, body + 8) =~= a.subrange(body, body + 8));
    } else if wire == 2 {
        lemma_varint_stays(a, b, body, 0, 0);
        lemma_varint_advances(a, body, 0, 0);
        let (len, start) = varint_at(a, body)->0;
        assert((a + b).subrange(start, start + len) =~= a.subrange(start, start + len));
    } else if wire == 5 {
        assert((a + b).subrange(body, body + 4) =~= a.subrange(body, body + 4));
    }
}

proof fn lemma_varint_shift(a: Seq<u8>, b: Seq<u8>, pos: int, i: nat, acc: nat)
    requires
        0 <= pos,
    ensures
        varint_from(a + b, a.len() + pos, i, acc) == (match varint_from(b, pos, i, acc) {
            Some((n, end)) => Some((n, a.len() + end)),
            None => None,
        }),
    decreases 10 - i,
{
    if i < 10 && pos < b.len() {
        assert((a + b)[a.len() + pos] == b[pos]);
        if b[pos] >= 128 {
            lemma_varint_shift(a, b, pos + 1, i + 1, acc + (b[pos] as nat % 128) * pow128(i));
        }
    }
}

/// A field is read the same whatever stands before it.
proof fn lemma_field_shift(a: Seq<u8>, b: Seq<u8>, pos: int)
    requires
        0 <= pos,
    ensures
        field_at(a + b, a.len() + pos) == (match field_at(b, pos) {
            Some((f, end)) => Some((f, a.len() + end)),
            None => None,
        }),
{
    let n = a.len() as int;
    lemma_varint_shift(a, b, pos, 0, 0);
    lemma_varint_advances(b, pos, 0, 0);
    if let Some((tag, body)) = varint_at(b, pos) {
        lemma_varint_shift(a, b, body, 0, 0);
        lemma_varint_advances(b, body, 0, 0);
        let wire = tag % 8;
        if wire == 1 && body + 8 <= b.len() {
            assert((a + b).subrange(n + body, n + body + 8) =~= b.subrange(body, body + 8));
        } else if wire == 5 && body + 4 <= b.len() {
            assert((a + b).subrange(n + body, n + body + 4) =~= b.subrange(body, body + 4));
        } else if wire == 2 {
            if let Some((len, start)) = varint_at(b, body) {
                if start + len <= b.len() {
                    assert((a + b).subrange(n + start, n + start + len) =~= b.subrange(
                        start,
                        start + len,
                    ));
                }
            }
        }
    }
}

proof fn lemma_fields_shift(a: Seq<u8>, b: Seq<u8>, pos: int)
    requires
        0 <= pos,
    ensures
        fields_from(a + b, a.len() + pos) == fields_from(b, pos),
    decreases b.len() - pos,
{
    if pos < b.len() {
        lemma_field_shift(a, b, pos);
        lemma_field_advances(b, pos);
        if let Some((f, end)) = field_at(b, pos) {
            lemma_fields_shift(a, b, end);
        }
    }
}

/// Whether the bytes from `pos` on are whole fields, up to the end.
pub open spec fn whole_fields(data: Seq<u8>, pos: int) -> bool
    decreases data.len() - pos,
    via whole_fields_decreases
{
    pos == data.len() || (0 <= pos < data.len() && match field_at(data, pos) {
        Some((_, end)) => whole_fields(data, end),
        None => false,
    })
}

#[via_fn]
proof fn whole_fields_decreases(data: Seq<u8>, pos: int) {
    lemma_field_advances(data, pos);
}

proof fn lemma_fields_joined(a: Seq<u8>, b: Seq<u8>, pos: int)
    requires
        whole_fields(a, pos),
    ensures
        fields_from(a + b, pos) == fields_from(a, pos) + fields(b),
    decreases a.len() - pos,
{
    if pos == a.len() {
        lemma_fields_shift(a, b, 0);
        assert(fields_from(a, pos) + fields(b) =~= fields(b));
    } else {
        lemma_field_stays(a, b, pos);
        lemma_field_advances(a, pos);
        let (f, end) = field_at(a, pos)->0;
        lemma_fields_joined(a, b, end);
        assert(seq![f] + (fields_from(a, end) + fields(b)) =~= seq![f] + fields_from(a, end)
            + fields(b));
    }
}

proof fn lemma_refs_joined(a: Seq<FieldModel>, b: Seq<FieldModel>, number: nat)
    ensures
        refs_in(a + b, number) == refs_in(a, number) + refs_in(b, number),
    decreases a.len(),
{
    if a.len() == 0 {
        assert(a + b =~= b);
        assert(refs_in(a, number) + refs_in(b, number) =~= refs_in(b, number));
    } else {
        lemma_refs_joined(a.skip(1), b, number);
        assert((a + b).skip(1) =~= a.skip(1) + b);
        assert((a + b)[0] == a[0]);
        assert(refs_in(a + b, number) =~= refs_in(a, number) + refs_in(b, number));
    }
}

/// The references of two messages put together are those of the first, then those of the second,
/// where the first is made of whole fields.
pub proof fn law_refs_of_joined(a: Seq<u8>, b: Seq<u8>, number: nat)
    requires
        whole_fields(a, 0),
    ensures
        refs_in(fields(a + b), number) == refs_in(fields(a), number) + refs_in(fields(b), number),
{
    lemma_fields_joined(a, b, 0);
    lemma_refs_joined(fields(a), fields(b), number);
}

} // verus!
