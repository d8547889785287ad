//! The proof envelope: a single JSON object `{"proof": [bytes...],
//! "name": ..., "scheme": ...}`.  This is the canonical envelope shape
//! of the library; it carries the backend proof bytes alone, with a
//! fixed label and scheme tag.  Encoding is verified byte for byte;
//! decoding reads the same shape back through the JSON wrappers.

use vstd::prelude::*;

use crate::errors::Error;
use crate::jsonval::{
    jmodel, json_array_len, json_as_string, json_as_u64, json_get, json_index, json_of,
    json_parse_str, JVal,
};

verus! {

use vstd::string::StringSliceAdditionalSpecFns;

/// Whether a JSON value is a well-formed envelope: an object whose
/// `proof` member is an array of byte-sized numbers and whose `name`
/// and `scheme` members are strings.
pub open spec fn env_ok(j: JVal) -> bool {
    &&& j is Obj
    &&& j->Obj_0.contains_key("proof"@)
    &&& j->Obj_0.contains_key("name"@)
    &&& j->Obj_0.contains_key("scheme"@)
    &&& j->Obj_0["proof"@] is Arr
    &&& forall|i: int|
        0 <= i < j->Obj_0["proof"@]->Arr_0.len() ==> (#[trigger] j->Obj_0["proof"@]->Arr_0[i])
            is UInt && j->Obj_0["proof"@]->Arr_0[i]->UInt_0 <= 255
    &&& j->Obj_0["name"@] is Str
    &&& j->Obj_0["scheme"@] is Str
}

/// The proof bytes a well-formed envelope carries.
pub open spec fn env_proof_bytes(j: JVal) -> Seq<u8> {
    j->Obj_0["proof"@]->Arr_0.map_values(|e: JVal| e->UInt_0 as u8)
}

/// The envelope one text denotes, if any: its proof bytes, name and
/// scheme.
pub open spec fn text_envelope(s: Seq<u8>) -> Option<JVal> {
    match json_of(s) {
        Some(j) => if env_ok(j) {
            Some(j)
        } else {
            None
        },
        None => None,
    }
}

/// A decoded proof envelope.
pub struct JsonProof {
    pub proof: Vec<u8>,
    pub name: String,
    pub scheme: String,
}

/// The decimal digits of one byte, without leading zeros.
pub open spec fn dec_digits(b: u8) -> Seq<u8> {
    if b < 10 {
        seq![(48 + b) as u8]
    } else if b < 100 {
        seq![(48 + b / 10) as u8, (48 + b % 10) as u8]
    } else {
        seq![(48 + b / 100) as u8, (48 + (b / 10) % 10) as u8, (48 + b % 10) as u8]
    }
}

/// The comma-separated decimal rendering of a byte string.
pub open spec fn render_nums(p: Seq<u8>) -> Seq<u8>
    decreases p.len(),
{
    if p.len() == 0 {
        Seq::empty()
    } else if p.len() == 1 {
        dec_digits(p[0])
    } else {
        render_nums(p.drop_last()) + seq![44u8] + dec_digits(p.last())
    }
}

/// The bytes `{"proof":[`.
pub open spec fn envelope_head() -> Seq<u8> {
    seq![
        123u8, 34u8, 112u8, 114u8, 111u8, 111u8, 102u8, 34u8, 58u8, 91u8,
    ]
}

/// The bytes `],"name":"no comment","scheme":"dalek-bulletproof"}`.
pub open spec fn envelope_tail() -> Seq<u8> {
    seq![
        93u8, 44u8, 34u8, 110u8, 97u8, 109u8, 101u8, 34u8, 58u8, 34u8,
        110u8, 111u8, 32u8, 99u8, 111u8, 109u8, 109u8, 101u8, 110u8, 116u8,
        34u8, 44u8, 34u8, 115u8, 99u8, 104u8, 101u8, 109u8, 101u8, 34u8,
        58u8, 34u8, 100u8, 97u8, 108u8, 101u8, 107u8, 45u8, 98u8, 117u8,
        108u8, 108u8, 101u8, 116u8, 112u8, 114u8, 111u8, 111u8, 102u8, 34u8,
        125u8,
    ]
}

/// The whole serialized envelope for the given proof bytes.
pub open spec fn render_envelope(p: Seq<u8>) -> Seq<u8> {
    envelope_head() + render_nums(p) + envelope_tail()
}

/// Append the decimal digits of one byte.
fn push_dec(out: &mut Vec<u8>, b: u8)
    ensures
        final(out)@ =~= old(out)@ + dec_digits(b),
{
    if b < 10 {
        out.push(48 + b);
    } else if b < 100 {
        out.push(48 + b / 10);
        out.push(48 + b % 10);
    } else {
        out.push(48 + b / 100);
        out.push(48 + (b / 10) % 10);
        out.push(48 + b % 10);
    }
}

/// Serialize the canonical envelope around the given proof bytes.
pub fn encode_envelope(proof: &Vec<u8>) -> (r: Vec<u8>)
    ensures
        r@ =~= render_envelope(proof@),
{
    let mut out: Vec<u8> = Vec::new();
    out.push(123u8);
    out.push(34u8);
    out.push(112u8);
    out.push(114u8);
    out.push(111u8);
    out.push(111u8);
    out.push(102u8);
    out.push(34u8);
    out.push(58u8);
    out.push(91u8);
    proof {
        assert(out@ =~= envelope_head());
        assert(proof@.take(0) =~= Seq::<u8>::empty());
    }
    let mut i: usize = 0;
    while i < proof.len()
        invariant
            i <= proof@.len(),
            out@ =~= envelope_head() + render_nums(proof@.take(i as int)),
        decreases proof@.len() - i,
    {
        if i > 0 {
            out.push(44u8);
        }
        push_dec(&mut out, proof[i]);
        proof {
            assert(proof@.take(i + 1).drop_last() =~= proof@.take(i as int));
            assert(proof@.take(i + 1).last() == proof@[i as int]);
        }
        i = i + 1;
    }
    proof {
        assert(proof@.take(proof@.len() as int) =~= proof@);
    }
    let tail: [u8; 51] = [
        93u8, 44u8, 34u8, 110u8, 97u8, 109u8, 101u8, 34u8, 58u8, 34u8, 110u8, 111u8, 32u8, 99u8,
        111u8, 109u8, 109u8, 101u8, 110u8, 116u8, 34u8, 44u8, 34u8, 115u8, 99u8, 104u8, 101u8,
        109u8, 101u8, 34u8, 58u8, 34u8, 100u8, 97u8, 108u8, 101u8, 107u8, 45u8, 98u8, 117u8,
        108u8, 108u8, 101u8, 116u8, 112u8, 114u8, 111u8, 111u8, 102u8, 34u8, 125u8,
    ];
    let mut j: usize = 0;
    while j < 51
        invariant
            j <= 51,
            tail@ =~= envelope_tail(),
            out@ =~= envelope_head() + render_nums(proof@) + envelope_tail().take(j as int),
        decreases 51 - j,
    {
        out.push(tail[j]);
        proof {
            assert(envelope_tail().take(j + 1).drop_last() =~= envelope_tail().take(j as int));
        }
        j = j + 1;
    }
    proof {
        assert(envelope_tail().take(51) =~= envelope_tail());
    }
    out
}

/// Read an envelope back: succeeds exactly when the text denotes a
/// well-formed envelope, whose proof bytes and tags it returns.
pub fn decode_envelope(data: &str) -> (r: Result<JsonProof, Error>)
    ensures
        r is Ok <==> text_envelope(data.spec_bytes()) is Some,
        r is Ok ==> ({
            let j = text_envelope(data.spec_bytes())->0;
            r->Ok_0.proof@ =~= env_proof_bytes(j) && r->Ok_0.name@ == j->Obj_0["name"@]->Str_0
                && r->Ok_0.scheme@ == j->Obj_0["scheme"@]->Str_0
        }),
        r is Err ==> r->Err_0 == Error::CorruptProof,
{
    let ghost jm = json_of(data.spec_bytes());
    let json = match json_parse_str(data) {
        Some(j) => j,
        None => {
            return Err(Error::CorruptProof);
        },
    };
    let pv = match json_get(&json, "proof") {
        Some(x) => x,
        None => {
            return Err(Error::CorruptProof);
        },
    };
    let n = match json_array_len(pv) {
        Some(n) => n,
        None => {
            return Err(Error::CorruptProof);
        },
    };
    let ghost j = jmodel(json);
    let ghost pj = j->Obj_0["proof"@];
    let mut bytes: Vec<u8> = Vec::new();
    let mut i: usize = 0;
    while i < n
        invariant
            j == jmodel(json),
            json_of(data.spec_bytes()) == Some(j),
            j is Obj && j->Obj_0.contains_key("proof"@),
            pj == j->Obj_0["proof"@],
            jmodel(*pv) == pj,
            pj is Arr,
            n == pj->Arr_0.len(),
            i <= n,
            bytes@.len() == i,
            forall|k: int|
                0 <= k < i ==> (#[trigger] pj->Arr_0[k]) is UInt && pj->Arr_0[k]->UInt_0 <= 255
                    && bytes@[k] == pj->Arr_0[k]->UInt_0 as u8,
        decreases n - i,
    {
        let bv = match json_index(pv, i) {
            Some(x) => x,
            None => {
                proof {
                    assert(false);
                }
                return Err(Error::CorruptProof);
            },
        };
        let b = match json_as_u64(bv) {
            Some(x) => x,
            None => {
                proof {
                    if env_ok(j) {
                        assert((j->Obj_0["proof"@]->Arr_0[i as int]) is UInt);
                        assert(false);
                    }
                }
                return Err(Error::CorruptProof);
            },
        };
        if b > 255 {
            proof {
                if env_ok(j) {
                    assert(j->Obj_0["proof"@]->Arr_0[i as int]->UInt_0 <= 255);
                    assert(false);
                }
            }
            return Err(Error::CorruptProof);
        }
        bytes.push(b as u8);
        i = i + 1;
    }
    let name = match json_get(&json, "name") {
        Some(x) => match json_as_string(x) {
            Some(s) => s,
            None => {
                return Err(Error::CorruptProof);
            },
        },
        None => {
            return Err(Error::CorruptProof);
        },
    };
    let scheme = match json_get(&json, "scheme") {
        Some(x) => match json_as_string(x) {
            Some(s) => s,
            None => {
                return Err(Error::CorruptProof);
            },
        },
        None => {
            return Err(Error::CorruptProof);
        },
    };
    proof {
        assert(bytes@ =~= env_proof_bytes(j));
    }
    Ok(JsonProof { proof: bytes, name, scheme })
}

} // verus!
