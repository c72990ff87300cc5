//! Placement of a video picture inside its view, keeping its aspect ratio.
use vstd::prelude::*;

verus! {

/// A placed rectangle: left and top offsets, width and height.
#[derive(Clone, Copy, Debug, PartialEq, Eq)]
pub struct Placement {
    pub left: i64,
    pub top: i64,
    pub width: i64,
    pub height: i64,
}

/// The largest rectangle of the picture's aspect ratio (rounded down) that
/// fits the view, centred in it: the full view width when the scaled height
/// fits, else the full view height.
pub open spec fn fit_spec(view_w: int, view_h: int, img_w: int, img_h: int) -> (int, int) {
    if img_h * view_w / img_w > view_h {
        (img_w * view_h / img_h, view_h)
    } else {
        (view_w, img_h * view_w / img_w)
    }
}

/// Where to draw a picture of `img_w` by `img_h` pixels in a view of `view_w`
/// by `view_h` pixels; `None` when the picture or the view has no area.
pub fn fit_frame(view_w: i32, view_h: i32, img_w: i32, img_h: i32) -> (r: Option<Placement>)
    ensures
        (img_w <= 0 || img_h <= 0 || view_w <= 0 || view_h <= 0) ==> r.is_none(),
        (img_w > 0 && img_h > 0 && view_w > 0 && view_h > 0) ==> r == Some(Placement {
            left: ((view_w - fit_spec(view_w as int, view_h as int, img_w as int, img_h as int).0) / 2) as i64,
            top: ((view_h - fit_spec(view_w as int, view_h as int, img_w as int, img_h as int).1) / 2) as i64,
            width: fit_spec(view_w as int, view_h as int, img_w as int, img_h as int).0 as i64,
            height: fit_spec(view_w as int, view_h as int, img_w as int, img_h as int).1 as i64,
        }),
{
    if img_w <= 0 || img_h <= 0 || view_w <= 0 || view_h <= 0 {
        return None;
    }
    let vw = view_w as u64;
    let vh = view_h as u64;
    let iw = img_w as u64;
    let ih = img_h as u64;
    proof {
        assert(ih * vw < 0x4000_0000_0000_0000) by (nonlinear_arith)
            requires
                ih < 0x8000_0000,
                vw < 0x8000_0000,
        ;
        assert(iw * vh < 0x4000_0000_0000_0000) by (nonlinear_arith)
            requires
                iw < 0x8000_0000,
                vh < 0x8000_0000,
        ;
    }
    let scaled_h = ih * vw / iw;
    let (w, h) = if scaled_h > vh {
        let scaled_w = iw * vh / ih;
        proof {
            // the width that keeps the ratio at full view height fits the view
            let a: int = iw as int;
            let b: int = ih as int;
            let x: int = vw as int;
            let y: int = vh as int;
            vstd::arithmetic::div_mod::lemma_fundamental_div_mod(b * x, a);
            vstd::arithmetic::div_mod::lemma_mod_bound(b * x, a);
            assert(a * y <= b * x) by (nonlinear_arith)
                requires
                    y < (b * x) / a,
                    b * x == a * ((b * x) / a) + (b * x) % a,
                    (b * x) % a >= 0,
                    a > 0,
            ;
            vstd::arithmetic::div_mod::lemma_div_is_ordered(a * y, b * x, b);
            vstd::arithmetic::div_mod::lemma_div_multiples_vanish(x, b);
            assert(b * x == x * b) by (nonlinear_arith);
            assert(scaled_w <= vw);
        }
        (scaled_w, vh)
    } else {
        (vw, scaled_h)
    };
    Some(Placement {
        left: ((vw - w) / 2) as i64,
        top: ((vh - h) / 2) as i64,
        width: w as i64,
        height: h as i64,
    })
}

} // verus!
