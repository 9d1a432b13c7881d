use vstd::prelude::*;

use crate::buffer_reader::{BuffReader, ParseError};
use crate::property::{lemma_prop_outcome_fits, prop_outcome, Property};
use crate::variable_byte_integer::vbi_spec;

verus! {

/// Capacity of a packet's property list.
pub const MAX_PROPERTIES: usize = 18;

/// Capacity of the will-property list of a CONNECT packet.
pub const MAX_WILL_PROPERTIES: usize = 7;

#[verifier::external_type_specification]
#[verifier::external_body]
#[verifier::reject_recursive_types(T)]
pub struct ExHeaplessVec<T, const N: usize>(heapless::Vec<T, N>);

/// The properties held by a packet's property list, in order.
pub uninterp spec fn packet_props(v: heapless::Vec<Property, 18>) -> Seq<Property>;

/// The properties held by a will-property list, in order.
pub uninterp spec fn will_props(v: heapless::Vec<Property, 7>) -> Seq<Property>;

/// Relies on heapless::Vec::new: a new vector holds nothing.
#[verifier::external_body]
pub(crate) fn new_packet_props<'a>() -> (r: heapless::Vec<Property<'a>, MAX_PROPERTIES>)
    ensures
        packet_props(r) == Seq::<Property<'a>>::empty(),
{
    heapless::Vec::new()
}

/// Relies on heapless::Vec::push: below capacity the item is appended at the end;
/// at capacity it is handed back and the vector is left as it was.
#[verifier::external_body]
fn push_packet_prop<'a>(v: &mut heapless::Vec<Property<'a>, MAX_PROPERTIES>, p: Property<'a>) -> (r:
    Result<(), Property<'a>>)
    ensures
        packet_props(*old(v)).len() < 18 ==> r is Ok && packet_props(*final(v)) == packet_props(
            *old(v),
        ).push(p),
        packet_props(*old(v)).len() >= 18 ==> r is Err && packet_props(*final(v)) == packet_props(
            *old(v),
        ),
{
    v.push(p)
}

/// Relies on heapless::Vec::new: a new vector holds nothing.
#[verifier::external_body]
fn new_will_props<'a>() -> (r: heapless::Vec<Property<'a>, MAX_WILL_PROPERTIES>)
    ensures
        will_props(r) == Seq::<Property<'a>>::empty(),
{
    heapless::Vec::new()
}

/// Relies on heapless::Vec::push: below capacity the item is appended at the end;
/// at capacity it is handed back and the vector is left as it was.
#[verifier::external_body]
fn push_will_prop<'a>(v: &mut heapless::Vec<Property<'a>, MAX_WILL_PROPERTIES>, p: Property<'a>) -> (r:
    Result<(), Property<'a>>)
    ensures
        will_props(*old(v)).len() < 7 ==> r is Ok && will_props(*final(v)) == will_props(*old(v)).push(
            p,
        ),
        will_props(*old(v)).len() >= 7 ==> r is Err && will_props(*final(v)) == will_props(*old(v)),
{
    v.push(p)
}

/// Outcome of decoding a property section body of `left` bytes at the start of `b` into a
/// list with room for `cap` more: the number of properties, or the error that stops it.
/// A property that would run past the declared end, or that fails to decode, is a
/// decoding error; a full list is an encoding error.
pub open spec fn section_outcome(b: Seq<u8>, left: nat, cap: nat) -> Result<nat, ParseError>
    decreases left,
{
    if left == 0 {
        Ok(0)
    } else {
        match prop_outcome(b) {
            Err(_) => Err(ParseError::DecodingError),
            Ok(v) => if v + 1 > left {
                Err(ParseError::DecodingError)
            } else if cap == 0 {
                Err(ParseError::EncodingError)
            } else {
                match section_outcome(b.skip(v as int + 1), (left - (v + 1)) as nat, (cap - 1) as nat) {
                    Ok(c) => Ok((c + 1) as nat),
                    Err(e) => Err(e),
                }
            },
        }
    }
}

/// `props` are the properties encoded one after another at the start of `b`, filling
/// exactly `left` bytes.
pub open spec fn section_decoded(props: Seq<Property>, b: Seq<u8>, left: nat) -> bool
    decreases props.len(),
{
    if props.len() == 0 {
        left == 0
    } else {
        match prop_outcome(b) {
            Ok(v) => v + 1 <= left && props[0].decoded_from(b) && section_decoded(
                props.drop_first(),
                b.skip(v as int + 1),
                (left - (v + 1)) as nat,
            ),
            Err(_) => false,
        }
    }
}

/// Outcome of decoding a whole property section at the start of `b` into a list with room
/// for `cap`: the declared length, the number of properties, and the size of the length
/// field, the section ending `len` bytes after that field.
pub open spec fn properties_spec(b: Seq<u8>, cap: nat) -> Result<(u32, nat, nat), ParseError> {
    match vbi_spec(b) {
        Err(e) => Err(e),
        Ok((len, k)) => match section_outcome(b.skip(k as int), len as nat, cap) {
            Ok(c) => Ok((len, c, k)),
            Err(e) => Err(e),
        },
    }
}

/// `r` with `k` more properties counted, if it is a count.
pub open spec fn count_plus(r: Result<nat, ParseError>, k: nat) -> Result<nat, ParseError> {
    match r {
        Ok(n) => Ok(n + k),
        Err(e) => Err(e),
    }
}

proof fn lemma_section_push(props: Seq<Property>, b: Seq<u8>, c: nat, p: Property, v: nat)
    requires
        section_decoded(props, b, c),
        c <= b.len(),
        prop_outcome(b.skip(c as int)) == Ok::<nat, ParseError>(v),
        p.decoded_from(b.skip(c as int)),
    ensures
        section_decoded(props.push(p), b, c + v + 1),
    decreases props.len(),
{
    if props.len() == 0 {
        assert(b.skip(0) =~= b);
        assert(props.push(p).drop_first() =~= Seq::<Property>::empty());
        assert(props.push(p)[0] == p);
        assert(section_decoded(Seq::<Property>::empty(), b.skip(v as int + 1), 0));
    } else {
        let w = prop_outcome(b)->Ok_0;
        let b2 = b.skip(w as int + 1);
        assert(b2.skip(c - (w + 1)) =~= b.skip(c as int));
        lemma_section_push(props.drop_first(), b2, (c - (w + 1)) as nat, p, v);
        assert(props.push(p).drop_first() =~= props.drop_first().push(p));
        assert(props.push(p)[0] == props[0]);
    }
}

proof fn lemma_section_step(b: Seq<u8>, left: nat, cap: nat, c: nat, k: nat)
    requires
        c < left,
        k <= cap,
        c <= b.len(),
    ensures
        ({
            let rest = b.skip(c as int);
            let here = section_outcome(rest, (left - c) as nat, (cap - k) as nat);
            match prop_outcome(rest) {
                Err(_) => here == Err::<nat, ParseError>(ParseError::DecodingError),
                Ok(v) => if c + v + 1 > left {
                    here == Err::<nat, ParseError>(ParseError::DecodingError)
                } else if k == cap {
                    here == Err::<nat, ParseError>(ParseError::EncodingError)
                } else {
                    &&& rest.skip(v as int + 1) =~= b.skip(c as int + v + 1)
                    &&& here == count_plus(
                        section_outcome(
                            b.skip(c as int + v + 1),
                            (left - (c + v + 1)) as nat,
                            (cap - (k + 1)) as nat,
                        ),
                        1,
                    )
                }
            }
        }),
{
    let rest = b.skip(c as int);
    lemma_prop_outcome_fits(rest);
    if let Ok(v) = prop_outcome(rest) {
        assert(rest.skip(v as int + 1) =~= b.skip(c as int + v + 1));
    }
}

/// Sum of record sizes.
pub open spec fn size_sum(sizes: Seq<nat>) -> nat
    decreases sizes.len(),
{
    if sizes.len() == 0 {
        0
    } else {
        sizes[0] + size_sum(sizes.drop_first())
    }
}

/// Property records of the given sizes (identifier byte included) stand one after
/// another at the start of `b`.
pub open spec fn records_at(b: Seq<u8>, sizes: Seq<nat>) -> bool
    decreases sizes.len(),
{
    sizes.len() == 0 || (sizes[0] >= 1 && prop_outcome(b) == Ok::<nat, ParseError>(
        (sizes[0] - 1) as nat,
    ) && records_at(b.skip(sizes[0] as int), sizes.drop_first()))
}

/// A section whose declared length is exactly the total size of the records in it
/// decodes to exactly those records, as long as the list has room for them all.
pub proof fn lemma_section_exact(b: Seq<u8>, sizes: Seq<nat>, cap: nat)
    requires
        records_at(b, sizes),
        sizes.len() <= cap,
    ensures
        section_outcome(b, size_sum(sizes), cap) == Ok::<nat, ParseError>(sizes.len()),
    decreases sizes.len(),
{
    if sizes.len() > 0 {
        lemma_section_exact(b.skip(sizes[0] as int), sizes.drop_first(), (cap - 1) as nat);
    }
}

/// A section whose declared length ends inside a record fails with a decoding error
/// instead of reading on, when the list has room for the whole records before that one;
/// with more of them the list fills first and the section fails with an encoding error.
pub proof fn lemma_section_overshoot(b: Seq<u8>, sizes: Seq<nat>, left: nat, cap: nat)
    requires
        records_at(b, sizes),
        sizes.len() >= 1,
        sizes.len() - 1 <= cap,
        size_sum(sizes.drop_last()) < left < size_sum(sizes),
    ensures
        section_outcome(b, left, cap) == Err::<nat, ParseError>(ParseError::DecodingError),
    decreases sizes.len(),
{
    if sizes.len() > 1 {
        let rest = sizes.drop_first();
        assert(rest.drop_last() =~= sizes.drop_last().drop_first());
        assert(sizes.drop_last()[0] == sizes[0]);
        assert(size_sum(sizes.drop_last()) == sizes[0] + size_sum(rest.drop_last()));
        assert(size_sum(sizes) == sizes[0] + size_sum(rest));
        assert(cap >= 1);
        lemma_section_overshoot(
            b.skip(sizes[0] as int),
            rest,
            (left - sizes[0]) as nat,
            (cap - 1) as nat,
        );
    } else {
        assert(sizes.drop_last().len() == 0);
        assert(sizes.drop_first().len() == 0);
        assert(size_sum(sizes) == sizes[0] + size_sum(sizes.drop_first()));
    }
}

/// Decodes a property section into a list of capacity 18: a variable-byte length, then
/// properties until exactly that many bytes are used. On failure the cursor stays where it
/// was.
pub fn decode_packet_properties<'a>(reader: &mut BuffReader<'a>) -> (r: Result<
    (u32, heapless::Vec<Property<'a>, MAX_PROPERTIES>),
    ParseError,
>)
    ensures
        match vbi_spec(old(reader).rest()) {
            Err(e) => r == Err::<(u32, heapless::Vec<Property<'a>, MAX_PROPERTIES>), ParseError>(e)
                && *final(reader) == *old(reader),
            Ok((len, k)) => match section_outcome(old(reader).rest().skip(k as int), len as nat, 18) {
                Ok(c) => r matches Ok((l, v)) && l == len && packet_props(v).len() == c
                    && section_decoded(packet_props(v), old(reader).rest().skip(k as int), len as nat)
                    && final(reader).advanced(old(reader), k + len),
                Err(e) => r == Err::<(u32, heapless::Vec<Property<'a>, MAX_PROPERTIES>), ParseError>(e)
                    && *final(reader) == *old(reader),
            },
        },
{
    let saved = reader.position;
    let ghost start = *reader;
    let len = reader.read_variable_byte_int()?;
    let ghost k = (reader.position - saved) as nat;
    let ghost b = reader.rest();
    assert(b =~= start.rest().skip(k as int));
    let mut list = new_packet_props();
    assert(b.skip(0) =~= b);
    let mut used: u32 = 0;
    let mut count: usize = 0;
    while used < len
        invariant
            reader.buffer == start.buffer,
            start.position == saved,
            start == *old(reader),
            vbi_spec(start.rest()) == Ok::<(u32, nat), ParseError>((len, k)),
            b == start.rest().skip(k as int),
            reader.position == saved + k + used,
            used <= len,
            count <= 18,
            count == packet_props(list).len(),
            b.len() >= used,
            reader.rest() == b.skip(used as int),
            section_decoded(packet_props(list), b, used as nat),
            section_outcome(b, len as nat, 18) == count_plus(
                section_outcome(b.skip(used as int), (len - used) as nat, (18 - count) as nat),
                count as nat,
            ),
        decreases len - used,
    {
        proof {
            lemma_section_step(b, len as nat, 18, used as nat, count as nat);
        }
        let before = reader.position;
        let p = match Property::decode(reader) {
            Ok(p) => p,
            Err(_) => {
                reader.position = saved;
                return Err(ParseError::DecodingError);
            },
        };
        let step = reader.position - before;
        if step > (len - used) as usize {
            reader.position = saved;
            return Err(ParseError::DecodingError);
        }
        if count >= 18 {
            reader.position = saved;
            return Err(ParseError::EncodingError);
        }
        proof {
            lemma_section_push(packet_props(list), b, used as nat, p, (step - 1) as nat);
        }
        let _ = push_packet_prop(&mut list, p);
        used = used + step as u32;
        count = count + 1;
        assert(reader.rest() =~= b.skip(used as int));
    }
    Ok((len, list))
}

/// Decodes a property section into a list of capacity 7: a variable-byte length, then
/// properties until exactly that many bytes are used. On failure the cursor stays where it
/// was.
pub fn decode_will_properties<'a>(reader: &mut BuffReader<'a>) -> (r: Result<
    (u32, heapless::Vec<Property<'a>, MAX_WILL_PROPERTIES>),
    ParseError,
>)
    ensures
        match vbi_spec(old(reader).rest()) {
            Err(e) => r == Err::<(u32, heapless::Vec<Property<'a>, MAX_WILL_PROPERTIES>), ParseError>(e)
                && *final(reader) == *old(reader),
            Ok((len, k)) => match section_outcome(old(reader).rest().skip(k as int), len as nat, 7) {
                Ok(c) => r matches Ok((l, v)) && l == len && will_props(v).len() == c
                    && section_decoded(will_props(v), old(reader).rest().skip(k as int), len as nat)
                    && final(reader).advanced(old(reader), k + len),
                Err(e) => r == Err::<(u32, heapless::Vec<Property<'a>, MAX_WILL_PROPERTIES>), ParseError>(e)
                    && *final(reader) == *old(reader),
            },
        },
{
    let saved = reader.position;
    let ghost start = *reader;
    let len = reader.read_variable_byte_int()?;
    let ghost k = (reader.position - saved) as nat;
    let ghost b = reader.rest();
    assert(b =~= start.rest().skip(k as int));
    let mut list = new_will_props();
    assert(b.skip(0) =~= b);
    let mut used: u32 = 0;
    let mut count: usize = 0;
    while used < len
        invariant
            reader.buffer == start.buffer,
            start.position == saved,
            start == *old(reader),
            vbi_spec(start.rest()) == Ok::<(u32, nat), ParseError>((len, k)),
            b == start.rest().skip(k as int),
            reader.position == saved + k + used,
            used <= len,
            count <= 7,
            count == will_props(list).len(),
            b.len() >= used,
            reader.rest() == b.skip(used as int),
            section_decoded(will_props(list), b, used as nat),
            section_outcome(b, len as nat, 7) == count_plus(
                section_outcome(b.skip(used as int), (len - used) as nat, (7 - count) as nat),
                count as nat,
            ),
        decreases len - used,
    {
        proof {
            lemma_section_step(b, len as nat, 7, used as nat, count as nat);
        }
        let before = reader.position;
        let p = match Property::decode(reader) {
            Ok(p) => p,
            Err(_) => {
                reader.position = saved;
                return Err(ParseError::DecodingError);
            },
        };
        let step = reader.position - before;
        if step > (len - used) as usize {
            reader.position = saved;
            return Err(ParseError::DecodingError);
        }
        if count >= 7 {
            reader.position = saved;
            return Err(ParseError::EncodingError);
        }
        proof {
            lemma_section_push(will_props(list), b, used as nat, p, (step - 1) as nat);
        }
        let _ = push_will_prop(&mut list, p);
        used = used + step as u32;
        count = count + 1;
        assert(reader.rest() =~= b.skip(used as int));
    }
    Ok((len, list))
}

} // verus!
