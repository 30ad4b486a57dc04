use vstd::prelude::*;

verus! {

/// One RGBA pixel, non-premultiplied, eight bits per channel.
#[derive(Clone, Copy, Debug, PartialEq, Eq, Structural)]
pub struct Rgba {
    pub r: u8,
    pub g: u8,
    pub b: u8,
    pub a: u8,
}

/// One channel of `fg` laid over `bg` with opacity `alpha / 255`, rounded down.
pub open spec fn mix_channel(fg: u8, bg: u8, alpha: u8) -> int {
    (fg * alpha + bg * (255 - alpha)) / 255
}

/// Alpha compositing of `fg` over `bg`; the background keeps its own alpha.
pub open spec fn blend_spec(bg: Rgba, fg: Rgba) -> Rgba {
    Rgba {
        r: mix_channel(fg.r, bg.r, fg.a) as u8,
        g: mix_channel(fg.g, bg.g, fg.a) as u8,
        b: mix_channel(fg.b, bg.b, fg.a) as u8,
        a: bg.a,
    }
}

proof fn lemma_mix_bounds(fg: u8, bg: u8, alpha: u8)
    ensures
        0 <= mix_channel(fg, bg, alpha) <= 255,
        alpha == 0 ==> mix_channel(fg, bg, alpha) == bg,
        alpha == 255 ==> mix_channel(fg, bg, alpha) == fg,
{
    let f = fg as int;
    let b = bg as int;
    let a = alpha as int;
    assert(0 <= f * a + b * (255 - a) <= 255 * 255) by (nonlinear_arith)
        requires
            0 <= f <= 255,
            0 <= b <= 255,
            0 <= a <= 255,
    ;
    if a == 0 {
        assert(f * a + b * (255 - a) == b * 255) by (nonlinear_arith)
            requires
                a == 0,
        ;
    }
    if a == 255 {
        assert(f * a + b * (255 - a) == f * 255) by (nonlinear_arith)
            requires
                a == 255,
        ;
    }
}

/// Both sides of the blend are unchanged when the foreground is fully transparent.
pub proof fn lemma_blend_transparent(bg: Rgba, fg: Rgba)
    requires
        fg.a == 0,
    ensures
        blend_spec(bg, fg) == bg,
{
    lemma_mix_bounds(fg.r, bg.r, fg.a);
    lemma_mix_bounds(fg.g, bg.g, fg.a);
    lemma_mix_bounds(fg.b, bg.b, fg.a);
}

fn mix(fg: u8, bg: u8, alpha: u8) -> (r: u8)
    ensures
        r == mix_channel(fg, bg, alpha),
{
    proof {
        lemma_mix_bounds(fg, bg, alpha);
    }
    let f = fg as u32;
    let b = bg as u32;
    let a = alpha as u32;
    ((f * a + b * (255 - a)) / 255) as u8
}

/// Lays `foreground` over `background` with the foreground's opacity.
pub fn blend(background: Rgba, foreground: Rgba) -> (r: Rgba)
    ensures
        r == blend_spec(background, foreground),
{
    Rgba {
        r: mix(foreground.r, background.r, foreground.a),
        g: mix(foreground.g, background.g, foreground.a),
        b: mix(foreground.b, background.b, foreground.a),
        a: background.a,
    }
}

} // verus!
