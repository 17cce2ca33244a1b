//! Construction of the nearby-search request URL.
//!
//! The endpoint, radius and place type are fixed; the coordinates are
//! written as their decimal text; the food item and the API key are
//! percent-encoded so that spaces and non-ASCII bytes survive the trip.

use vstd::prelude::*;
use crate::model::{ApiKey, Coordinates};
use crate::text::append_bytes;

verus! {

/// A byte that stands for itself in a query value: ASCII letters and
/// digits, minus, underscore, dot, tilde.
pub open spec fn is_unreserved(b: u8) -> bool {
    (0x41 <= b <= 0x5a) || (0x61 <= b <= 0x7a) || (0x30 <= b <= 0x39) || b == 0x2d || b == 0x5f
        || b == 0x2e || b == 0x7e
}

/// Upper-case hexadecimal digit of a value below sixteen.
pub open spec fn sp_hex_digit(n: int) -> u8 {
    if n < 10 {
        (0x30 + n) as u8
    } else {
        (0x41 + n - 10) as u8
    }
}

/// Percent-encoding: unreserved bytes stand for themselves, every other
/// byte becomes a percent sign and two upper-case hexadecimal digits.
pub open spec fn sp_pct(s: Seq<u8>) -> Seq<u8>
    decreases s.len(),
{
    if s.len() == 0 {
        Seq::empty()
    } else {
        let b = s[0];
        (if is_unreserved(b) {
            seq![b]
        } else {
            seq![0x25u8, sp_hex_digit(b as int / 16), sp_hex_digit(b as int % 16)]
        }) + sp_pct(s.drop_first())
    }
}

/// Percent-encode `s`, mirroring `sp_pct`.
pub fn pct_encode(s: &Vec<u8>) -> (r: Vec<u8>)
    ensures
        r@ == sp_pct(s@),
{
    let mut out: Vec<u8> = Vec::new();
    let mut i: usize = 0;
    proof {
        assert(s@.skip(0) =~= s@);
    }
    while i < s.len()
        invariant
            i <= s.len(),
            out@ + sp_pct(s@.skip(i as int)) == sp_pct(s@),
        decreases s.len() - i,
    {
        let b = s[i];
        proof {
            assert(s@.skip(i as int)[0] == s@[i as int]);
            assert(s@.skip(i as int).drop_first() =~= s@.skip(i as int + 1));
        }
        let ghost pre = out@;
        if (0x41 <= b && b <= 0x5a) || (0x61 <= b && b <= 0x7a) || (0x30 <= b && b <= 0x39) || b
            == 0x2d || b == 0x5f || b == 0x2e || b == 0x7e {
            out.push(b);
            proof {
                assert(out@ + sp_pct(s@.skip(i as int + 1)) =~= pre + sp_pct(s@.skip(i as int)));
            }
        } else {
            out.push(0x25);
            let hi = b / 16;
            let lo = b % 16;
            let hd = if hi < 10 {
                0x30 + hi
            } else {
                0x41 + hi - 10
            };
            let ld = if lo < 10 {
                0x30 + lo
            } else {
                0x41 + lo - 10
            };
            out.push(hd);
            out.push(ld);
            proof {
                assert(hd == sp_hex_digit(b as int / 16));
                assert(ld == sp_hex_digit(b as int % 16));
                assert(out@ + sp_pct(s@.skip(i as int + 1)) =~= pre + sp_pct(s@.skip(i as int)));
            }
        }
        i = i + 1;
    }
    proof {
        assert(s@.skip(s@.len() as int) =~= Seq::<u8>::empty());
        assert(out@ + sp_pct(s@.skip(s@.len() as int)) =~= out@);
    }
    out
}

/// Spec bytes of the endpoint up to the location parameter.
pub open spec fn spec_url_base() -> Seq<u8> {
    seq![
        0x68, 0x74, 0x74, 0x70, 0x73, 0x3a, 0x2f, 0x2f, 0x6d, 0x61, 0x70, 0x73,
        0x2e, 0x67, 0x6f, 0x6f, 0x67, 0x6c, 0x65, 0x61, 0x70, 0x69, 0x73, 0x2e,
        0x63, 0x6f, 0x6d, 0x2f, 0x6d, 0x61, 0x70, 0x73, 0x2f, 0x61, 0x70, 0x69,
        0x2f, 0x70, 0x6c, 0x61, 0x63, 0x65, 0x2f, 0x6e, 0x65, 0x61, 0x72, 0x62,
        0x79, 0x73, 0x65, 0x61, 0x72, 0x63, 0x68, 0x2f, 0x6a, 0x73, 0x6f, 0x6e,
        0x3f, 0x6c, 0x6f, 0x63, 0x61, 0x74, 0x69, 0x6f, 0x6e, 0x3d,
    ]
}

/// The bytes of the endpoint up to the location parameter.
pub fn url_base() -> (r: Vec<u8>)
    ensures
        r@ == spec_url_base(),
{
    let mut v: Vec<u8> = Vec::new();
    v.push(0x68);
    v.push(0x74);
    v.push(0x74);
    v.push(0x70);
    v.push(0x73);
    v.push(0x3a);
    v.push(0x2f);
    v.push(0x2f);
    v.push(0x6d);
    v.push(0x61);
    v.push(0x70);
    v.push(0x73);
    v.push(0x2e);
    v.push(0x67);
    v.push(0x6f);
    v.push(0x6f);
    v.push(0x67);
    v.push(0x6c);
    v.push(0x65);
    v.push(0x61);
    v.push(0x70);
    v.push(0x69);
    v.push(0x73);
    v.push(0x2e);
    v.push(0x63);
    v.push(0x6f);
    v.push(0x6d);
    v.push(0x2f);
    v.push(0x6d);
    v.push(0x61);
    v.push(0x70);
    v.push(0x73);
    v.push(0x2f);
    v.push(0x61);
    v.push(0x70);
    v.push(0x69);
    v.push(0x2f);
    v.push(0x70);
    v.push(0x6c);
    v.push(0x61);
    v.push(0x63);
    v.push(0x65);
    v.push(0x2f);
    v.push(0x6e);
    v.push(0x65);
    v.push(0x61);
    v.push(0x72);
    v.push(0x62);
    v.push(0x79);
    v.push(0x73);
    v.push(0x65);
    v.push(0x61);
    v.push(0x72);
    v.push(0x63);
    v.push(0x68);
    v.push(0x2f);
    v.push(0x6a);
    v.push(0x73);
    v.push(0x6f);
    v.push(0x6e);
    v.push(0x3f);
    v.push(0x6c);
    v.push(0x6f);
    v.push(0x63);
    v.push(0x61);
    v.push(0x74);
    v.push(0x69);
    v.push(0x6f);
    v.push(0x6e);
    v.push(0x3d);
    proof {
        assert(v@ =~= spec_url_base());
    }
    v
}

/// Spec bytes of the fixed radius and type parameters up to the keyword.
pub open spec fn spec_url_mid() -> Seq<u8> {
    seq![
        0x26, 0x72, 0x61, 0x64, 0x69, 0x75, 0x73, 0x3d, 0x35, 0x30, 0x30, 0x30,
        0x26, 0x74, 0x79, 0x70, 0x65, 0x3d, 0x67, 0x72, 0x6f, 0x63, 0x65, 0x72,
        0x79, 0x5f, 0x6f, 0x72, 0x5f, 0x73, 0x75, 0x70, 0x65, 0x72, 0x6d, 0x61,
        0x72, 0x6b, 0x65, 0x74, 0x26, 0x6b, 0x65, 0x79, 0x77, 0x6f, 0x72, 0x64,
        0x3d,
    ]
}

/// The bytes of the fixed radius and type parameters up to the keyword.
pub fn url_mid() -> (r: Vec<u8>)
    ensures
        r@ == spec_url_mid(),
{
    let mut v: Vec<u8> = Vec::new();
    v.push(0x26);
    v.push(0x72);
    v.push(0x61);
    v.push(0x64);
    v.push(0x69);
    v.push(0x75);
    v.push(0x73);
    v.push(0x3d);
    v.push(0x35);
    v.push(0x30);
    v.push(0x30);
    v.push(0x30);
    v.push(0x26);
    v.push(0x74);
    v.push(0x79);
    v.push(0x70);
    v.push(0x65);
    v.push(0x3d);
    v.push(0x67);
    v.push(0x72);
    v.push(0x6f);
    v.push(0x63);
    v.push(0x65);
    v.push(0x72);
    v.push(0x79);
    v.push(0x5f);
    v.push(0x6f);
    v.push(0x72);
    v.push(0x5f);
    v.push(0x73);
    v.push(0x75);
    v.push(0x70);
    v.push(0x65);
    v.push(0x72);
    v.push(0x6d);
    v.push(0x61);
    v.push(0x72);
    v.push(0x6b);
    v.push(0x65);
    v.push(0x74);
    v.push(0x26);
    v.push(0x6b);
    v.push(0x65);
    v.push(0x79);
    v.push(0x77);
    v.push(0x6f);
    v.push(0x72);
    v.push(0x64);
    v.push(0x3d);
    proof {
        assert(v@ =~= spec_url_mid());
    }
    v
}

/// Spec bytes of the key parameter name.
pub open spec fn spec_url_key_param() -> Seq<u8> {
    seq![
        0x26, 0x6b, 0x65, 0x79, 0x3d,
    ]
}

/// The bytes of the key parameter name.
pub fn url_key_param() -> (r: Vec<u8>)
    ensures
        r@ == spec_url_key_param(),
{
    let mut v: Vec<u8> = Vec::new();
    v.push(0x26);
    v.push(0x6b);
    v.push(0x65);
    v.push(0x79);
    v.push(0x3d);
    proof {
        assert(v@ =~= spec_url_key_param());
    }
    v
}

/// The whole request URL for a nearby search.
pub open spec fn sp_url(key: Seq<u8>, lat: Seq<u8>, lng: Seq<u8>, food: Seq<u8>) -> Seq<u8> {
    spec_url_base() + lat + seq![0x2cu8] + lng + spec_url_mid() + sp_pct(food) + spec_url_key_param()
        + sp_pct(key)
}

/// Build the request URL: the fixed endpoint, `location={lat},{lng}`, the
/// fixed radius and place type, the percent-encoded food item, and the
/// percent-encoded key.
pub fn build_search_url(key: &ApiKey, loc: &Coordinates, food: &Vec<u8>) -> (r: Vec<u8>)
    ensures
        r@ == sp_url(key.bytes@, loc.lat_text@, loc.lng_text@, food@),
{
    let mut out = url_base();
    append_bytes(&mut out, &loc.lat_text);
    out.push(0x2c);
    append_bytes(&mut out, &loc.lng_text);
    let mid = url_mid();
    append_bytes(&mut out, &mid);
    let f = pct_encode(food);
    append_bytes(&mut out, &f);
    let kp = url_key_param();
    append_bytes(&mut out, &kp);
    let k = pct_encode(&key.bytes);
    append_bytes(&mut out, &k);
    proof {
        assert(out@ =~= sp_url(key.bytes@, loc.lat_text@, loc.lng_text@, food@));
    }
    out
}

} // verus!
