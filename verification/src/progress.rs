//! Live ASCII-cock progress theatre: the shape and the colors of the bar.
//!
//! Each target gets a bar `[8=======D~~~~~~~~]` whose shaft grows with the
//! progress while the head `D` stays in frame all the way to the right
//! edge. The drip is bright white; with `--gay` the rest cycles through
//! the rainbow. The program measures the progress and paints.

use vstd::prelude::*;
use crate::dicks::{BASE, HEAD, JIZZ, SHAFT};

verus! {

/// Bright green: finishes hard.
pub const GRADIENT_FULL: u8 = 46;
/// Cyan: the goalposts.
pub const TOTAL_COLOR: u8 = 51;
/// Bright white: pearl drip.
pub const JIZZ_COLOR: u8 = 231;
/// Red: the victim's name in lights.
pub const PATH_COLOR: u8 = 196;

/// The number of characters between `8` and the far end of the bar: one
/// less than the width, at least 2.
pub open spec fn spec_bar_inner(bar_width: usize) -> int {
    if bar_width <= 3 {
        2
    } else {
        bar_width - 1
    }
}

/// The inner width of a bar of `bar_width` characters.
pub fn bar_inner(bar_width: usize) -> (r: usize)
    ensures
        r == spec_bar_inner(bar_width),
{
    let w = if bar_width >= 1 {
        bar_width - 1
    } else {
        0
    };
    if w < 2 {
        2
    } else {
        w
    }
}

/// `8`, `shaft` units of `=`, `D`, `jizz` drops of `~`.
pub open spec fn bar_shape(shaft: nat, jizz: nat) -> Seq<u8> {
    seq![BASE] + Seq::new(shaft, |i: int| SHAFT) + seq![HEAD] + Seq::new(jizz, |i: int| JIZZ)
}

/// The bar of inner width `inner` whose shaft is `shaft` long (cut to fit).
pub open spec fn spec_render_bar(inner: usize, shaft: usize) -> Seq<u8> {
    let s = if shaft < inner - 1 {
        shaft as int
    } else {
        inner - 1
    };
    bar_shape(s as nat, (inner - 1 - s) as nat)
}

fn push_run(out: &mut Vec<u8>, ch: u8, n: usize)
    ensures
        final(out)@ == old(out)@ + Seq::new(n as nat, |i: int| ch),
{
    let mut i: usize = 0;
    while i < n
        invariant
            i <= n,
            out@ == old(out)@ + Seq::new(i as nat, |k: int| ch),
        decreases n - i,
    {
        out.push(ch);
        i += 1;
        assert(out@ =~= old(out)@ + Seq::new(i as nat, |k: int| ch));
    }
}

/// Draw the bar: `8`, the shaft (at most `inner - 1` long), `D`, and drip
/// for the rest, `inner + 1` characters in all.
pub fn render_bar(inner: usize, shaft: usize) -> (r: Vec<u8>)
    requires
        1 <= inner < usize::MAX,
    ensures
        r@ == spec_render_bar(inner, shaft),
        r@.len() == inner + 1,
{
    let s = if shaft < inner - 1 {
        shaft
    } else {
        inner - 1
    };
    let jizz = inner - 1 - s;
    let mut out: Vec<u8> = Vec::with_capacity(inner + 1);
    out.push(BASE);
    push_run(&mut out, SHAFT, s);
    out.push(HEAD);
    push_run(&mut out, JIZZ, jizz);
    assert(out@ =~= spec_render_bar(inner, shaft));
    out
}

/// Law: the head stays in frame. Whatever the progress, the bar is
/// `inner + 1` characters long, starts with `8`, has its `D` right after
/// the shaft, and at full shaft (`inner - 1`) ends with the `D`.
pub proof fn lemma_head_in_frame(inner: usize, shaft: usize)
    requires
        1 <= inner,
    ensures
        spec_render_bar(inner, shaft).len() == inner + 1,
        spec_render_bar(inner, shaft)[0] == BASE,
        spec_render_bar(inner, shaft)[(if shaft < inner - 1 { shaft as int } else { inner - 1 })
            + 1] == HEAD,
        shaft >= inner - 1 ==> spec_render_bar(inner, shaft).last() == HEAD,
{
    let s: int = if shaft < inner - 1 { shaft as int } else { inner - 1 };
    let b = spec_render_bar(inner, shaft);
    let p1 = seq![BASE] + Seq::new(s as nat, |i: int| SHAFT);
    let p2 = p1 + seq![HEAD];
    assert(b == p2 + Seq::new((inner - 1 - s) as nat, |i: int| JIZZ));
    assert(b[s + 1] == p2[s + 1]);
}

/// The rainbow (ROYGBIV) in xterm-256 colors, for the shaft under `--gay`.
pub open spec fn rainbow() -> Seq<u8> {
    seq![196u8, 208u8, 226u8, 46u8, 51u8, 21u8, 201u8]
}

fn rainbow_at(i: usize) -> (r: u8)
    requires
        i < 7,
    ensures
        r == rainbow()[i as int],
{
    if i == 0 {
        196
    } else if i == 1 {
        208
    } else if i == 2 {
        226
    } else if i == 3 {
        46
    } else if i == 4 {
        51
    } else if i == 5 {
        21
    } else {
        201
    }
}

/// How many characters of `bar` before `i` are not drip.
pub open spec fn non_drip_before(bar: Seq<u8>, i: int) -> nat
    decreases i,
{
    if i <= 0 {
        0
    } else {
        non_drip_before(bar, i - 1) + if bar[i - 1] != JIZZ {
            1nat
        } else {
            0nat
        }
    }
}

/// The color of each character of a bar: drip is bright white; under
/// `--gay` every other character takes the next rainbow color; otherwise
/// it stays plain (`None`).
pub open spec fn bar_color(bar: Seq<u8>, i: int, gay: bool) -> Option<u8> {
    if bar[i] == JIZZ {
        Some(JIZZ_COLOR)
    } else if gay {
        Some(rainbow()[(non_drip_before(bar, i) % 7) as int])
    } else {
        None
    }
}

/// The colors to paint a bar with, character by character.
pub fn bar_colors(bar: &[u8], gay: bool) -> (r: Vec<Option<u8>>)
    ensures
        r@.len() == bar@.len(),
        forall|i: int| 0 <= i < bar@.len() ==> r@[i] == bar_color(bar@, i, gay),
{
    let mut r: Vec<Option<u8>> = Vec::with_capacity(bar.len());
    let mut color_idx: usize = 0;
    let mut i: usize = 0;
    while i < bar.len()
        invariant
            i <= bar@.len(),
            r@.len() == i,
            color_idx == non_drip_before(bar@, i as int),
            color_idx <= i,
            forall|k: int| 0 <= k < i ==> r@[k] == bar_color(bar@, k, gay),
        decreases bar@.len() - i,
    {
        let ch = bar[i];
        if ch == JIZZ {
            r.push(Some(JIZZ_COLOR));
        } else if gay {
            r.push(Some(rainbow_at(color_idx % 7)));
        } else {
            r.push(None);
        }
        if ch != JIZZ {
            color_idx += 1;
        }
        i += 1;
    }
    r
}

/// The color of the byte counter and the percentage: yellow while just
/// getting hard, through lime, to bright green when done.
pub open spec fn spec_gradient_for(full: bool, tenths: u32) -> u8 {
    if full {
        GRADIENT_FULL
    } else if tenths <= 1 {
        226
    } else if tenths <= 3 {
        227
    } else if tenths <= 5 {
        191
    } else if tenths <= 7 {
        154
    } else {
        82
    }
}

/// The gradient color for a progress of `tenths` tenths (`full` when the
/// target is done).
pub fn gradient_for(full: bool, tenths: u32) -> (r: u8)
    ensures
        r == spec_gradient_for(full, tenths),
{
    if full {
        GRADIENT_FULL
    } else if tenths <= 1 {
        226
    } else if tenths <= 3 {
        227
    } else if tenths <= 5 {
        191
    } else if tenths <= 7 {
        154
    } else {
        82
    }
}

} // verus!
