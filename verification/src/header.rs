//! The circuit header: the first line of a circuit file, giving the
//! constraint, public-input and witness counts and the field
//! characteristic, which must equal the backend group order before any
//! constraint work begins.

use vstd::prelude::*;

use crate::backend::{basepoint_order_bytes, ell_bytes};
use crate::codec::{bit_len, bits, dec_value, decimal_to_le32, is_dec, le_value, p2, p256};
use crate::errors::Error;
use crate::jsonval::{jmodel, json_as_string, json_as_u64, json_get, json_of, json_parse_str, JVal};

verus! {

use vstd::string::StringSliceAdditionalSpecFns;

/// The UTF-8 bytes of an owned string, as contracts speak of them.
pub open spec fn string_bytes(s: String) -> Seq<u8> {
    vstd::utf8::encode_utf8(s@)
}

/// The parsed first line of a circuit description.
#[derive(Debug)]
pub struct Header {
    pub constraint_nb: u32,
    pub instance_nb: u32,
    pub witness_nb: u32,
    pub field_characteristic: String,
}

/// The mathematical shape of a header.
pub struct HeaderV {
    pub constraint_nb: u32,
    pub instance_nb: u32,
    pub witness_nb: u32,
    pub field_characteristic: Seq<char>,
}

/// A number member that fits 32 bits.
pub open spec fn u32_ok(j: JVal) -> bool {
    j is UInt && j->UInt_0 <= u32::MAX as u64
}

/// Whether a JSON value is a well-formed header: the object
/// `{"r1cs": {...}}` with the three counts and the characteristic.
pub open spec fn header_ok(j: JVal) -> bool {
    &&& j is Obj
    &&& j->Obj_0.contains_key("r1cs"@)
    &&& header_inner_ok(j->Obj_0["r1cs"@])
}

pub open spec fn header_inner_ok(h: JVal) -> bool {
    &&& h is Obj
    &&& h->Obj_0.contains_key("constraint_nb"@)
    &&& h->Obj_0.contains_key("instance_nb"@)
    &&& h->Obj_0.contains_key("witness_nb"@)
    &&& h->Obj_0.contains_key("field_characteristic"@)
    &&& u32_ok(h->Obj_0["constraint_nb"@])
    &&& u32_ok(h->Obj_0["instance_nb"@])
    &&& u32_ok(h->Obj_0["witness_nb"@])
    &&& h->Obj_0["field_characteristic"@] is Str
}

/// The header a well-formed JSON object denotes.
pub open spec fn header_of(j: JVal) -> HeaderV {
    let h = j->Obj_0["r1cs"@];
    HeaderV {
        constraint_nb: h->Obj_0["constraint_nb"@]->UInt_0 as u32,
        instance_nb: h->Obj_0["instance_nb"@]->UInt_0 as u32,
        witness_nb: h->Obj_0["witness_nb"@]->UInt_0 as u32,
        field_characteristic: h->Obj_0["field_characteristic"@]->Str_0,
    }
}

/// The header one line of text denotes, if any.
pub open spec fn line_header(s: Seq<u8>) -> Option<HeaderV> {
    match json_of(s) {
        Some(j) => if header_ok(j) {
            Some(header_of(j))
        } else {
            None
        },
        None => None,
    }
}

/// Parse the header line: succeeds exactly when the text denotes a
/// well-formed header, whose four members it returns.
pub fn parse_header(line: &str) -> (r: Result<Header, Error>)
    ensures
        r is Ok <==> line_header(line.spec_bytes()) is Some,
        r is Ok ==> ({
            let h = line_header(line.spec_bytes())->0;
            r->Ok_0.constraint_nb == h.constraint_nb && r->Ok_0.instance_nb == h.instance_nb
                && r->Ok_0.witness_nb == h.witness_nb && r->Ok_0.field_characteristic@
                == h.field_characteristic
        }),
        r is Err ==> r->Err_0 == Error::MalformedHeader,
{
    let json = match json_parse_str(line) {
        Some(j) => j,
        None => {
            return Err(Error::MalformedHeader);
        },
    };
    let h = match json_get(&json, "r1cs") {
        Some(x) => x,
        None => {
            return Err(Error::MalformedHeader);
        },
    };
    let constraint_nb = match read_u32(h, "constraint_nb") {
        Some(x) => x,
        None => {
            return Err(Error::MalformedHeader);
        },
    };
    let instance_nb = match read_u32(h, "instance_nb") {
        Some(x) => x,
        None => {
            return Err(Error::MalformedHeader);
        },
    };
    let witness_nb = match read_u32(h, "witness_nb") {
        Some(x) => x,
        None => {
            return Err(Error::MalformedHeader);
        },
    };
    let fc = match json_get(h, "field_characteristic") {
        Some(x) => x,
        None => {
            return Err(Error::MalformedHeader);
        },
    };
    let field_characteristic = match json_as_string(fc) {
        Some(x) => x,
        None => {
            return Err(Error::MalformedHeader);
        },
    };
    Ok(Header { constraint_nb, instance_nb, witness_nb, field_characteristic })
}

/// One `u32` member of the header object.
fn read_u32(h: &serde_json::Value, key: &str) -> (r: Option<u32>)
    ensures
        r is Some <==> (jmodel(*h) is Obj && jmodel(*h)->Obj_0.contains_key(key@) && u32_ok(
            jmodel(*h)->Obj_0[key@],
        )),
        r is Some ==> r->0 == jmodel(*h)->Obj_0[key@]->UInt_0 as u32,
{
    let v = match json_get(h, key) {
        Some(v) => v,
        None => {
            return None;
        },
    };
    let n = match json_as_u64(v) {
        Some(n) => n,
        None => {
            return None;
        },
    };
    if n > 0xffff_ffffu64 {
        return None;
    }
    Some(n as u32)
}

/// Check the declared characteristic against the backend group order:
/// the session is valid only if they are exactly equal.
pub fn validate_characteristic(h: &Header) -> (r: Result<(), Error>)
    ensures
        r is Ok <==> is_dec(string_bytes(h.field_characteristic)) && dec_value(
            string_bytes(h.field_characteristic),
        ) == le_value(ell_bytes()),
        r is Err ==> r->Err_0 == Error::MalformedNumber || r->Err_0 == Error::InvalidField,
        r is Err && is_dec(string_bytes(h.field_characteristic)) && dec_value(
            string_bytes(h.field_characteristic),
        ) < p256(32) ==> r->Err_0 == Error::InvalidField,
{
    let fe = match decimal_to_le32(h.field_characteristic.as_str()) {
        Some(fe) => fe,
        None => {
            proof {
                crate::codec::lemma_le_value_bound(ell_bytes());
            }
            return Err(Error::MalformedNumber);
        },
    };
    let order = basepoint_order_bytes();
    let mut j: usize = 0;
    while j < 32
        invariant
            j <= 32,
            fe.wf(),
            order@ =~= ell_bytes(),
            le_value(fe@) == dec_value(string_bytes(h.field_characteristic)),
            forall|i: int| 0 <= i < j ==> fe@[i] == order@[i],
        decreases 32 - j,
    {
        if fe.bytes[j] != order[j] {
            proof {
                if dec_value(string_bytes(h.field_characteristic)) == le_value(ell_bytes()) {
                    crate::codec::lemma_le_value_injective(fe@, ell_bytes());
                }
            }
            return Err(Error::InvalidField);
        }
        j = j + 1;
    }
    proof {
        assert(fe@ =~= ell_bytes());
    }
    Ok(())
}

/// The generator-vector capacity both roles size identically: the
/// least power of two above the constraint and witness counts.
pub fn generator_capacity(constraint_nb: u32, witness_nb: u32) -> (r: u64)
    ensures
        r == p2(bit_len((constraint_nb + witness_nb) as nat)),
        r > constraint_nb + witness_nb,
{
    let sum64: u64 = constraint_nb as u64 + witness_nb as u64;
    proof {
        crate::codec::lemma_p2_32();
        assert(p2(33) == 2 * p2(32));
    }
    let b: u32 = if sum64 > 0xffff_ffffu64 {
        proof {
            crate::codec::lemma_bit_len_le(sum64 as nat, 33);
            if bit_len(sum64 as nat) < 33 {
                crate::codec::lemma_p2_mono(bit_len(sum64 as nat), 32);
                crate::codec::lemma_bit_len_bounds(sum64 as nat);
            }
        }
        33u32
    } else {
        bits(sum64 as u32)
    };
    proof {
        crate::codec::lemma_bit_len_bounds(sum64 as nat);
        crate::codec::lemma_p2_mono(b as nat, 33);
    }
    let mut g: u64 = 1;
    let mut k: u32 = 0;
    while k < b
        invariant
            k <= b,
            b <= 33,
            g == p2(k as nat),
            p2(b as nat) <= 0x2_0000_0000,
        decreases b - k,
    {
        proof {
            crate::codec::lemma_p2_mono((k + 1) as nat, b as nat);
        }
        g = g * 2;
        k = k + 1;
    }
    g
}

} // verus!
