//! Rendering of everything the tool prints: the prompt, the result listing
//! on standard output, and the diagnostics on standard error.
//!
//! Each function is a pure map from plain values to bytes with an exact
//! contract; none of them takes the API key, so no rendered output can
//! carry it.

use vstd::prelude::*;
use crate::model::{AppError, Place, PlaceView, place_views};
use crate::text::append_bytes;

verus! {

/// Spec bytes of the prompt written before reading the food item.
pub open spec fn spec_prompt() -> Seq<u8> {
    seq![
        0x45, 0x6e, 0x74, 0x65, 0x72, 0x20, 0x74, 0x68, 0x65, 0x20, 0x6e, 0x61,
        0x6d, 0x65, 0x20, 0x6f, 0x66, 0x20, 0x61, 0x20, 0x66, 0x6f, 0x6f, 0x64,
        0x20, 0x69, 0x74, 0x65, 0x6d, 0x3a, 0x20,
    ]
}

/// The bytes of the prompt written before reading the food item.
pub fn prompt() -> (r: Vec<u8>)
    ensures
        r@ == spec_prompt(),
{
    let mut v: Vec<u8> = Vec::new();
    v.push(0x45);
    v.push(0x6e);
    v.push(0x74);
    v.push(0x65);
    v.push(0x72);
    v.push(0x20);
    v.push(0x74);
    v.push(0x68);
    v.push(0x65);
    v.push(0x20);
    v.push(0x6e);
    v.push(0x61);
    v.push(0x6d);
    v.push(0x65);
    v.push(0x20);
    v.push(0x6f);
    v.push(0x66);
    v.push(0x20);
    v.push(0x61);
    v.push(0x20);
    v.push(0x66);
    v.push(0x6f);
    v.push(0x6f);
    v.push(0x64);
    v.push(0x20);
    v.push(0x69);
    v.push(0x74);
    v.push(0x65);
    v.push(0x6d);
    v.push(0x3a);
    v.push(0x20);
    proof {
        assert(v@ =~= spec_prompt());
    }
    v
}

/// Spec bytes of the no-results message up to the food item.
pub open spec fn spec_msg_none_a() -> Seq<u8> {
    seq![
        0x4e, 0x6f, 0x20, 0x6e, 0x65, 0x61, 0x72, 0x62, 0x79, 0x20, 0x67, 0x72,
        0x6f, 0x63, 0x65, 0x72, 0x79, 0x20, 0x73, 0x74, 0x6f, 0x72, 0x65, 0x73,
        0x20, 0x66, 0x6f, 0x75, 0x6e, 0x64, 0x20, 0x66, 0x6f, 0x72, 0x20,
    ]
}

/// The bytes of the no-results message up to the food item.
pub fn msg_none_a() -> (r: Vec<u8>)
    ensures
        r@ == spec_msg_none_a(),
{
    let mut v: Vec<u8> = Vec::new();
    v.push(0x4e);
    v.push(0x6f);
    v.push(0x20);
    v.push(0x6e);
    v.push(0x65);
    v.push(0x61);
    v.push(0x72);
    v.push(0x62);
    v.push(0x79);
    v.push(0x20);
    v.push(0x67);
    v.push(0x72);
    v.push(0x6f);
    v.push(0x63);
    v.push(0x65);
    v.push(0x72);
    v.push(0x79);
    v.push(0x20);
    v.push(0x73);
    v.push(0x74);
    v.push(0x6f);
    v.push(0x72);
    v.push(0x65);
    v.push(0x73);
    v.push(0x20);
    v.push(0x66);
    v.push(0x6f);
    v.push(0x75);
    v.push(0x6e);
    v.push(0x64);
    v.push(0x20);
    v.push(0x66);
    v.push(0x6f);
    v.push(0x72);
    v.push(0x20);
    proof {
        assert(v@ =~= spec_msg_none_a());
    }
    v
}

/// Spec bytes of the no-results message after the food item.
pub open spec fn spec_msg_none_b() -> Seq<u8> {
    seq![
        0x2e, 0x0a,
    ]
}

/// The bytes of the no-results message after the food item.
pub fn msg_none_b() -> (r: Vec<u8>)
    ensures
        r@ == spec_msg_none_b(),
{
    let mut v: Vec<u8> = Vec::new();
    v.push(0x2e);
    v.push(0x0a);
    proof {
        assert(v@ =~= spec_msg_none_b());
    }
    v
}

/// Spec bytes of the results header up to the food item.
pub open spec fn spec_msg_head_a() -> Seq<u8> {
    seq![
        0x52, 0x65, 0x63, 0x6f, 0x6d, 0x6d, 0x65, 0x6e, 0x64, 0x65, 0x64, 0x20,
        0x67, 0x72, 0x6f, 0x63, 0x65, 0x72, 0x79, 0x20, 0x73, 0x74, 0x6f, 0x72,
        0x65, 0x73, 0x20, 0x66, 0x6f, 0x72, 0x20,
    ]
}

/// The bytes of the results header up to the food item.
pub fn msg_head_a() -> (r: Vec<u8>)
    ensures
        r@ == spec_msg_head_a(),
{
    let mut v: Vec<u8> = Vec::new();
    v.push(0x52);
    v.push(0x65);
    v.push(0x63);
    v.push(0x6f);
    v.push(0x6d);
    v.push(0x6d);
    v.push(0x65);
    v.push(0x6e);
    v.push(0x64);
    v.push(0x65);
    v.push(0x64);
    v.push(0x20);
    v.push(0x67);
    v.push(0x72);
    v.push(0x6f);
    v.push(0x63);
    v.push(0x65);
    v.push(0x72);
    v.push(0x79);
    v.push(0x20);
    v.push(0x73);
    v.push(0x74);
    v.push(0x6f);
    v.push(0x72);
    v.push(0x65);
    v.push(0x73);
    v.push(0x20);
    v.push(0x66);
    v.push(0x6f);
    v.push(0x72);
    v.push(0x20);
    proof {
        assert(v@ =~= spec_msg_head_a());
    }
    v
}

/// Spec bytes of the results header after the food item.
pub open spec fn spec_msg_head_b() -> Seq<u8> {
    seq![
        0x3a, 0x20, 0x0a,
    ]
}

/// The bytes of the results header after the food item.
pub fn msg_head_b() -> (r: Vec<u8>)
    ensures
        r@ == spec_msg_head_b(),
{
    let mut v: Vec<u8> = Vec::new();
    v.push(0x3a);
    v.push(0x20);
    v.push(0x0a);
    proof {
        assert(v@ =~= spec_msg_head_b());
    }
    v
}

/// Spec bytes of the separator between a name and its vicinity.
pub open spec fn spec_sep_bytes() -> Seq<u8> {
    seq![
        0x20, 0x2d, 0x20,
    ]
}

/// The bytes of the separator between a name and its vicinity.
pub fn sep_bytes() -> (r: Vec<u8>)
    ensures
        r@ == spec_sep_bytes(),
{
    let mut v: Vec<u8> = Vec::new();
    v.push(0x20);
    v.push(0x2d);
    v.push(0x20);
    proof {
        assert(v@ =~= spec_sep_bytes());
    }
    v
}

/// Spec bytes of the missing-key diagnostic.
pub open spec fn spec_msg_err_key() -> Seq<u8> {
    seq![
        0x50, 0x6c, 0x65, 0x61, 0x73, 0x65, 0x20, 0x73, 0x65, 0x74, 0x20, 0x74,
        0x68, 0x65, 0x20, 0x47, 0x4f, 0x4f, 0x47, 0x4c, 0x45, 0x5f, 0x41, 0x50,
        0x49, 0x5f, 0x4b, 0x45, 0x59, 0x20, 0x65, 0x6e, 0x76, 0x69, 0x72, 0x6f,
        0x6e, 0x6d, 0x65, 0x6e, 0x74, 0x20, 0x76, 0x61, 0x72, 0x69, 0x61, 0x62,
        0x6c, 0x65,
    ]
}

/// The bytes of the missing-key diagnostic.
pub fn msg_err_key() -> (r: Vec<u8>)
    ensures
        r@ == spec_msg_err_key(),
{
    let mut v: Vec<u8> = Vec::new();
    v.push(0x50);
    v.push(0x6c);
    v.push(0x65);
    v.push(0x61);
    v.push(0x73);
    v.push(0x65);
    v.push(0x20);
    v.push(0x73);
    v.push(0x65);
    v.push(0x74);
    v.push(0x20);
    v.push(0x74);
    v.push(0x68);
    v.push(0x65);
    v.push(0x20);
    v.push(0x47);
    v.push(0x4f);
    v.push(0x4f);
    v.push(0x47);
    v.push(0x4c);
    v.push(0x45);
    v.push(0x5f);
    v.push(0x41);
    v.push(0x50);
    v.push(0x49);
    v.push(0x5f);
    v.push(0x4b);
    v.push(0x45);
    v.push(0x59);
    v.push(0x20);
    v.push(0x65);
    v.push(0x6e);
    v.push(0x76);
    v.push(0x69);
    v.push(0x72);
    v.push(0x6f);
    v.push(0x6e);
    v.push(0x6d);
    v.push(0x65);
    v.push(0x6e);
    v.push(0x74);
    v.push(0x20);
    v.push(0x76);
    v.push(0x61);
    v.push(0x72);
    v.push(0x69);
    v.push(0x61);
    v.push(0x62);
    v.push(0x6c);
    v.push(0x65);
    proof {
        assert(v@ =~= spec_msg_err_key());
    }
    v
}

/// Spec bytes of the input-failure diagnostic.
pub open spec fn spec_msg_err_input() -> Seq<u8> {
    seq![
        0x63, 0x6f, 0x75, 0x6c, 0x64, 0x20, 0x6e, 0x6f, 0x74, 0x20, 0x72, 0x65,
        0x61, 0x64, 0x20, 0x61, 0x20, 0x66, 0x6f, 0x6f, 0x64, 0x20, 0x69, 0x74,
        0x65, 0x6d, 0x20, 0x66, 0x72, 0x6f, 0x6d, 0x20, 0x73, 0x74, 0x61, 0x6e,
        0x64, 0x61, 0x72, 0x64, 0x20, 0x69, 0x6e, 0x70, 0x75, 0x74,
    ]
}

/// The bytes of the input-failure diagnostic.
pub fn msg_err_input() -> (r: Vec<u8>)
    ensures
        r@ == spec_msg_err_input(),
{
    let mut v: Vec<u8> = Vec::new();
    v.push(0x63);
    v.push(0x6f);
    v.push(0x75);
    v.push(0x6c);
    v.push(0x64);
    v.push(0x20);
    v.push(0x6e);
    v.push(0x6f);
    v.push(0x74);
    v.push(0x20);
    v.push(0x72);
    v.push(0x65);
    v.push(0x61);
    v.push(0x64);
    v.push(0x20);
    v.push(0x61);
    v.push(0x20);
    v.push(0x66);
    v.push(0x6f);
    v.push(0x6f);
    v.push(0x64);
    v.push(0x20);
    v.push(0x69);
    v.push(0x74);
    v.push(0x65);
    v.push(0x6d);
    v.push(0x20);
    v.push(0x66);
    v.push(0x72);
    v.push(0x6f);
    v.push(0x6d);
    v.push(0x20);
    v.push(0x73);
    v.push(0x74);
    v.push(0x61);
    v.push(0x6e);
    v.push(0x64);
    v.push(0x61);
    v.push(0x72);
    v.push(0x64);
    v.push(0x20);
    v.push(0x69);
    v.push(0x6e);
    v.push(0x70);
    v.push(0x75);
    v.push(0x74);
    proof {
        assert(v@ =~= spec_msg_err_input());
    }
    v
}

/// Spec bytes of the network-failure diagnostic.
pub open spec fn spec_msg_err_network() -> Seq<u8> {
    seq![
        0x6e, 0x65, 0x74, 0x77, 0x6f, 0x72, 0x6b, 0x20, 0x65, 0x72, 0x72, 0x6f,
        0x72, 0x20, 0x77, 0x68, 0x69, 0x6c, 0x65, 0x20, 0x63, 0x6f, 0x6e, 0x74,
        0x61, 0x63, 0x74, 0x69, 0x6e, 0x67, 0x20, 0x74, 0x68, 0x65, 0x20, 0x70,
        0x6c, 0x61, 0x63, 0x65, 0x73, 0x20, 0x73, 0x65, 0x72, 0x76, 0x69, 0x63,
        0x65,
    ]
}

/// The bytes of the network-failure diagnostic.
pub fn msg_err_network() -> (r: Vec<u8>)
    ensures
        r@ == spec_msg_err_network(),
{
    let mut v: Vec<u8> = Vec::new();
    v.push(0x6e);
    v.push(0x65);
    v.push(0x74);
    v.push(0x77);
    v.push(0x6f);
    v.push(0x72);
    v.push(0x6b);
    v.push(0x20);
    v.push(0x65);
    v.push(0x72);
    v.push(0x72);
    v.push(0x6f);
    v.push(0x72);
    v.push(0x20);
    v.push(0x77);
    v.push(0x68);
    v.push(0x69);
    v.push(0x6c);
    v.push(0x65);
    v.push(0x20);
    v.push(0x63);
    v.push(0x6f);
    v.push(0x6e);
    v.push(0x74);
    v.push(0x61);
    v.push(0x63);
    v.push(0x74);
    v.push(0x69);
    v.push(0x6e);
    v.push(0x67);
    v.push(0x20);
    v.push(0x74);
    v.push(0x68);
    v.push(0x65);
    v.push(0x20);
    v.push(0x70);
    v.push(0x6c);
    v.push(0x61);
    v.push(0x63);
    v.push(0x65);
    v.push(0x73);
    v.push(0x20);
    v.push(0x73);
    v.push(0x65);
    v.push(0x72);
    v.push(0x76);
    v.push(0x69);
    v.push(0x63);
    v.push(0x65);
    proof {
        assert(v@ =~= spec_msg_err_network());
    }
    v
}

/// Spec bytes of the HTTP-failure diagnostic up to the status code.
pub open spec fn spec_msg_err_http() -> Seq<u8> {
    seq![
        0x74, 0x68, 0x65, 0x20, 0x70, 0x6c, 0x61, 0x63, 0x65, 0x73, 0x20, 0x73,
        0x65, 0x72, 0x76, 0x69, 0x63, 0x65, 0x20, 0x72, 0x65, 0x74, 0x75, 0x72,
        0x6e, 0x65, 0x64, 0x20, 0x48, 0x54, 0x54, 0x50, 0x20, 0x73, 0x74, 0x61,
        0x74, 0x75, 0x73, 0x20,
    ]
}

/// The bytes of the HTTP-failure diagnostic up to the status code.
pub fn msg_err_http() -> (r: Vec<u8>)
    ensures
        r@ == spec_msg_err_http(),
{
    let mut v: Vec<u8> = Vec::new();
    v.push(0x74);
    v.push(0x68);
    v.push(0x65);
    v.push(0x20);
    v.push(0x70);
    v.push(0x6c);
    v.push(0x61);
    v.push(0x63);
    v.push(0x65);
    v.push(0x73);
    v.push(0x20);
    v.push(0x73);
    v.push(0x65);
    v.push(0x72);
    v.push(0x76);
    v.push(0x69);
    v.push(0x63);
    v.push(0x65);
    v.push(0x20);
    v.push(0x72);
    v.push(0x65);
    v.push(0x74);
    v.push(0x75);
    v.push(0x72);
    v.push(0x6e);
    v.push(0x65);
    v.push(0x64);
    v.push(0x20);
    v.push(0x48);
    v.push(0x54);
    v.push(0x54);
    v.push(0x50);
    v.push(0x20);
    v.push(0x73);
    v.push(0x74);
    v.push(0x61);
    v.push(0x74);
    v.push(0x75);
    v.push(0x73);
    v.push(0x20);
    proof {
        assert(v@ =~= spec_msg_err_http());
    }
    v
}

/// Spec bytes of the decode-failure diagnostic.
pub open spec fn spec_msg_err_decode() -> Seq<u8> {
    seq![
        0x63, 0x6f, 0x75, 0x6c, 0x64, 0x20, 0x6e, 0x6f, 0x74, 0x20, 0x64, 0x65,
        0x63, 0x6f, 0x64, 0x65, 0x20, 0x74, 0x68, 0x65, 0x20, 0x70, 0x6c, 0x61,
        0x63, 0x65, 0x73, 0x20, 0x73, 0x65, 0x72, 0x76, 0x69, 0x63, 0x65, 0x20,
        0x72, 0x65, 0x73, 0x70, 0x6f, 0x6e, 0x73, 0x65,
    ]
}

/// The bytes of the decode-failure diagnostic.
pub fn msg_err_decode() -> (r: Vec<u8>)
    ensures
        r@ == spec_msg_err_decode(),
{
    let mut v: Vec<u8> = Vec::new();
    v.push(0x63);
    v.push(0x6f);
    v.push(0x75);
    v.push(0x6c);
    v.push(0x64);
    v.push(0x20);
    v.push(0x6e);
    v.push(0x6f);
    v.push(0x74);
    v.push(0x20);
    v.push(0x64);
    v.push(0x65);
    v.push(0x63);
    v.push(0x6f);
    v.push(0x64);
    v.push(0x65);
    v.push(0x20);
    v.push(0x74);
    v.push(0x68);
    v.push(0x65);
    v.push(0x20);
    v.push(0x70);
    v.push(0x6c);
    v.push(0x61);
    v.push(0x63);
    v.push(0x65);
    v.push(0x73);
    v.push(0x20);
    v.push(0x73);
    v.push(0x65);
    v.push(0x72);
    v.push(0x76);
    v.push(0x69);
    v.push(0x63);
    v.push(0x65);
    v.push(0x20);
    v.push(0x72);
    v.push(0x65);
    v.push(0x73);
    v.push(0x70);
    v.push(0x6f);
    v.push(0x6e);
    v.push(0x73);
    v.push(0x65);
    proof {
        assert(v@ =~= spec_msg_err_decode());
    }
    v
}

/// Decimal digits of `n`, most significant first.
pub open spec fn sp_dec(n: nat) -> Seq<u8>
    decreases n,
{
    if n < 10 {
        seq![(0x30 + n) as u8]
    } else {
        sp_dec(n / 10).push((0x30 + n % 10) as u8)
    }
}

/// Write `n` in decimal, mirroring `sp_dec`.
pub fn dec_u16(n: u16) -> (r: Vec<u8>)
    ensures
        r@ == sp_dec(n as nat),
    decreases n,
{
    if n < 10 {
        let mut v: Vec<u8> = Vec::new();
        v.push(0x30 + (n as u8));
        proof {
            assert(v@ =~= sp_dec(n as nat));
        }
        v
    } else {
        let mut v = dec_u16(n / 10);
        v.push(0x30 + (n % 10) as u8);
        v
    }
}

/// The line printed for one place: its name, the separator, its vicinity,
/// a line terminator.
pub open spec fn sp_place_line(p: PlaceView) -> Seq<u8> {
    p.name + spec_sep_bytes() + p.vicinity + seq![0x0au8]
}

/// The lines printed for the places, in their order.
pub open spec fn sp_lines(ps: Seq<PlaceView>) -> Seq<u8>
    decreases ps.len(),
{
    if ps.len() == 0 {
        Seq::empty()
    } else {
        sp_place_line(ps[0]) + sp_lines(ps.drop_first())
    }
}

/// Everything written on standard output after the prompt: either the
/// no-results message, or the header followed by one line per place.
pub open spec fn sp_render(food: Seq<u8>, ps: Seq<PlaceView>) -> Seq<u8> {
    if ps.len() == 0 {
        spec_msg_none_a() + food + spec_msg_none_b()
    } else {
        spec_msg_head_a() + food + spec_msg_head_b() + sp_lines(ps)
    }
}

/// Render the result listing for `food`: the no-results message when no
/// place came back, else the header and one `name - vicinity` line per
/// place, in the order the service returned them.
pub fn render_results(food: &Vec<u8>, places: &Vec<Place>) -> (r: Vec<u8>)
    ensures
        r@ == sp_render(food@, place_views(places@)),
{
    let ghost views = place_views(places@);
    if places.len() == 0 {
        let mut out = msg_none_a();
        append_bytes(&mut out, food);
        let tail = msg_none_b();
        append_bytes(&mut out, &tail);
        proof {
            assert(out@ =~= sp_render(food@, views));
        }
        out
    } else {
        let mut out = msg_head_a();
        append_bytes(&mut out, food);
        let tail = msg_head_b();
        append_bytes(&mut out, &tail);
        proof {
            assert(views.skip(0) =~= views);
            assert(out@ + sp_lines(views.skip(0)) =~= sp_render(food@, views));
        }
        let mut i: usize = 0;
        while i < places.len()
            invariant
                i <= places.len(),
                views == place_views(places@),
                out@ + sp_lines(views.skip(i as int)) == sp_render(food@, views),
            decreases places.len() - i,
        {
            let ghost pre = out@;
            let p = &places[i];
            append_bytes(&mut out, &p.name);
            let sep = sep_bytes();
            append_bytes(&mut out, &sep);
            append_bytes(&mut out, &p.vicinity);
            out.push(0x0a);
            proof {
                assert(views.skip(i as int)[0] == views[i as int]);
                assert(views.skip(i as int).drop_first() =~= views.skip(i as int + 1));
                assert(views[i as int] == places@[i as int]@);
                assert(out@ =~= pre + sp_place_line(views[i as int]));
                assert(out@ + sp_lines(views.skip(i as int + 1)) =~= pre + sp_lines(
                    views.skip(i as int),
                ));
            }
            i = i + 1;
        }
        proof {
            assert(views.skip(views.len() as int) =~= Seq::<PlaceView>::empty());
            assert(out@ + sp_lines(views.skip(places@.len() as int)) =~= out@);
        }
        out
    }
}

/// The diagnostic for a failure, a function of the error value alone.
pub open spec fn sp_error_message(e: AppError) -> Seq<u8> {
    match e {
        AppError::MissingKey => spec_msg_err_key(),
        AppError::InputFailed => spec_msg_err_input(),
        AppError::Network => spec_msg_err_network(),
        AppError::HttpStatus(c) => spec_msg_err_http() + sp_dec(c as nat),
        AppError::Decode => spec_msg_err_decode(),
    }
}

/// Render the diagnostic written on standard error for a failure. The API
/// key is not among the inputs, so it cannot appear in the output.
pub fn render_error(e: &AppError) -> (r: Vec<u8>)
    ensures
        r@ == sp_error_message(*e),
{
    match e {
        AppError::MissingKey => msg_err_key(),
        AppError::InputFailed => msg_err_input(),
        AppError::Network => msg_err_network(),
        AppError::HttpStatus(c) => {
            let mut out = msg_err_http();
            let d = dec_u16(*c);
            append_bytes(&mut out, &d);
            out
        },
        AppError::Decode => msg_err_decode(),
    }
}

// ---------------------------------------------------------------------------
// Laws about the rendered output
// ---------------------------------------------------------------------------

/// Number of occurrences of `b` in `s`.
pub open spec fn count_byte(s: Seq<u8>, b: u8) -> int
    decreases s.len(),
{
    if s.len() == 0 {
        0
    } else {
        (if s[0] == b {
            1int
        } else {
            0int
        }) + count_byte(s.drop_first(), b)
    }
}

/// Occurrences in a concatenation add up.
proof fn lemma_count_append(a: Seq<u8>, b: Seq<u8>, x: u8)
    ensures
        count_byte(a + b, x) == count_byte(a, x) + count_byte(b, x),
    decreases a.len(),
{
    if a.len() == 0 {
        assert(a + b =~= b);
    } else {
        assert((a + b).drop_first() =~= a.drop_first() + b);
        assert((a + b)[0] == a[0]);
        lemma_count_append(a.drop_first(), b, x);
    }
}

/// A sequence none of whose bytes is `b` holds no occurrence of it.
proof fn lemma_count_zero(s: Seq<u8>, b: u8)
    requires
        forall|k: int| 0 <= k < s.len() ==> s[k] != b,
    ensures
        count_byte(s, b) == 0,
    decreases s.len(),
{
    if s.len() == 0 {
    } else {
        assert(forall|k: int| 0 <= k < s.drop_first().len() ==> s.drop_first()[k] != b);
        lemma_count_zero(s.drop_first(), b);
    }
}

/// Each place contributes exactly one terminated line, provided its name
/// and vicinity are free of line terminators.
proof fn lemma_lines_count(ps: Seq<PlaceView>)
    requires
        forall|k: int| 0 <= k < ps.len() ==> count_byte((#[trigger] ps[k]).name, 0x0a) == 0,
        forall|k: int| 0 <= k < ps.len() ==> count_byte((#[trigger] ps[k]).vicinity, 0x0a) == 0,
    ensures
        count_byte(sp_lines(ps), 0x0a) == ps.len(),
    decreases ps.len(),
{
    if ps.len() == 0 {
    } else {
        let p = ps[0];
        assert(count_byte(spec_sep_bytes(), 0x0a) == 0) by {
            lemma_count_zero(spec_sep_bytes(), 0x0a);
        }
        assert(count_byte(seq![0x0au8], 0x0a) == 1) by {
            reveal_with_fuel(count_byte, 3);
        }
        lemma_count_append(p.name, spec_sep_bytes(), 0x0a);
        lemma_count_append(p.name + spec_sep_bytes(), p.vicinity, 0x0a);
        lemma_count_append(p.name + spec_sep_bytes() + p.vicinity, seq![0x0au8], 0x0a);
        assert(count_byte(sp_place_line(p), 0x0a) == 1);
        assert(forall|k: int| 0 <= k < ps.drop_first().len() ==> count_byte(
            (#[trigger] ps.drop_first()[k]).name,
            0x0a,
        ) == 0) by {
            assert forall|k: int|
                0 <= k < ps.drop_first().len() implies count_byte(
                (#[trigger] ps.drop_first()[k]).name,
                0x0a,
            ) == 0 by {
                assert(ps.drop_first()[k] == ps[k + 1]);
            }
        }
        assert(forall|k: int| 0 <= k < ps.drop_first().len() ==> count_byte(
            (#[trigger] ps.drop_first()[k]).vicinity,
            0x0a,
        ) == 0) by {
            assert forall|k: int|
                0 <= k < ps.drop_first().len() implies count_byte(
                (#[trigger] ps.drop_first()[k]).vicinity,
                0x0a,
            ) == 0 by {
                assert(ps.drop_first()[k] == ps[k + 1]);
            }
        }
        lemma_lines_count(ps.drop_first());
        lemma_count_append(sp_place_line(p), sp_lines(ps.drop_first()), 0x0a);
    }
}

/// For a response with places, the printed output holds exactly one line
/// per place after the single header line, in the order of the places; so
/// its line count is the place count plus one. The names, vicinities and
/// the food item must themselves be free of line terminators, as anything
/// printed on a single line must be.
pub proof fn lemma_render_line_count(food: Seq<u8>, ps: Seq<PlaceView>)
    requires
        ps.len() > 0,
        count_byte(food, 0x0a) == 0,
        forall|k: int| 0 <= k < ps.len() ==> count_byte((#[trigger] ps[k]).name, 0x0a) == 0,
        forall|k: int| 0 <= k < ps.len() ==> count_byte((#[trigger] ps[k]).vicinity, 0x0a) == 0,
    ensures
        count_byte(sp_render(food, ps), 0x0a) == ps.len() + 1,
{
    assert(count_byte(spec_msg_head_a(), 0x0a) == 0) by {
        lemma_count_zero(spec_msg_head_a(), 0x0a);
    }
    assert(count_byte(spec_msg_head_b(), 0x0a) == 1) by {
        reveal_with_fuel(count_byte, 4);
    }
    lemma_count_append(spec_msg_head_a(), food, 0x0a);
    lemma_count_append(spec_msg_head_a() + food, spec_msg_head_b(), 0x0a);
    lemma_lines_count(ps);
    lemma_count_append(spec_msg_head_a() + food + spec_msg_head_b(), sp_lines(ps), 0x0a);
}

/// The printed output depends on the response body only through the places
/// it decodes to: bodies with equal decode denotations render identically.
/// Since the decode specification skips unknown members at every level, a
/// body that differs from another only in such members and decodes to the
/// same places is indistinguishable in what the user sees.
pub proof fn lemma_output_depends_only_on_places(
    food: Seq<u8>,
    b1: Seq<u8>,
    b2: Seq<u8>,
    ps1: Seq<PlaceView>,
    ps2: Seq<PlaceView>,
)
    requires
        crate::json::sp_decode(b1) == Some(ps1),
        crate::json::sp_decode(b2) == Some(ps2),
        crate::json::sp_decode(b1) == crate::json::sp_decode(b2),
    ensures
        sp_render(food, ps1) == sp_render(food, ps2),
{
}

/// An empty result renders exactly the no-results message around the food
/// item, and nothing else.
pub proof fn lemma_empty_results_message(food: Seq<u8>)
    ensures
        sp_render(food, Seq::empty()) == spec_msg_none_a() + food + spec_msg_none_b(),
{
}

/// For an empty response the whole printed output is the single no-results
/// line.
pub proof fn lemma_render_empty_line_count(food: Seq<u8>)
    requires
        count_byte(food, 0x0a) == 0,
    ensures
        count_byte(sp_render(food, Seq::empty()), 0x0a) == 1,
{
    assert(count_byte(spec_msg_none_a(), 0x0a) == 0) by {
        lemma_count_zero(spec_msg_none_a(), 0x0a);
    }
    assert(count_byte(spec_msg_none_b(), 0x0a) == 1) by {
        reveal_with_fuel(count_byte, 3);
    }
    lemma_count_append(spec_msg_none_a(), food, 0x0a);
    lemma_count_append(spec_msg_none_a() + food, spec_msg_none_b(), 0x0a);
}

} // verus!
