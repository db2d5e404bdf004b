//! Test patterns for a strip: one that tells the strands of the lamp apart, and one that
//! blinks every other LED.

use crate::layout::{led_count, lemma_strand_start_step, strand_start, StrandLayout};
use crate::ledstrip::{lemma_loaded, loaded, DeviceController, SinkError};
use vstd::prelude::*;

verus! {

/// The frame that tells the first `n` strands apart: every LED of strand `s` shows
/// `colors[s]`.
pub open spec fn strand_colors(lengths: Seq<usize>, colors: Seq<u32>, n: nat) -> Seq<u32>
    decreases n,
{
    if n == 0 {
        Seq::empty()
    } else {
        strand_colors(lengths, colors, (n - 1) as nat) + Seq::new(
            lengths[n - 1] as nat,
            |j: int| colors[n - 1],
        )
    }
}

/// The frame that tells strands apart, as far as there are colors for them: it ends with
/// the last strand that has a color.
pub open spec fn identification_frame(lengths: Seq<usize>, colors: Seq<u32>) -> Seq<u32> {
    strand_colors(
        lengths,
        colors,
        if colors.len() < lengths.len() {
            colors.len()
        } else {
            lengths.len()
        },
    )
}

/// The frame for the first `n` strands has one word for each of their LEDs.
pub proof fn lemma_strand_colors_len(lengths: Seq<usize>, colors: Seq<u32>, n: nat)
    requires
        n <= lengths.len(),
    ensures
        strand_colors(lengths, colors, n).len() == strand_start(lengths, n as int),
    decreases n,
{
    if n == 0 {
        assert(lengths.take(0).len() == 0);
    } else {
        lemma_strand_colors_len(lengths, colors, (n - 1) as nat);
        lemma_strand_start_step(lengths, n - 1);
    }
}

/// The frame in which LEDs are dark and white in turn: an LED is dark if its index leaves
/// the remainder `check` when divided by two, and white otherwise.
pub open spec fn blink_frame(count: nat, check: usize) -> Seq<u32> {
    Seq::new(count, |i: int| if i % 2 == check { 0u32 } else { 0xff_ffffu32 })
}

/// The remainder that the next round of blinking takes for dark: 1 after 0, and 0 after
/// anything else.
pub open spec fn next_check(check: usize) -> usize {
    if check == 0 {
        1
    } else {
        0
    }
}

/// The strands of the lamp that the identification pattern is made for.
pub open spec fn pattern_strands() -> Seq<usize> {
    seq![39usize, 31usize, 38usize, 20usize]
}

/// The colors of the identification pattern: white, red, green and blue.
pub open spec fn pattern_colors() -> Seq<u32> {
    seq![0xff_ffffu32, 0xff_0000u32, 0x00_ff00u32, 0x00_00ffu32]
}

/// The identification pattern covers 128 LEDs.
pub proof fn lemma_pattern_len()
    ensures
        led_count(pattern_strands()) == 128,
        identification_frame(pattern_strands(), pattern_colors()).len() == 128,
{
    let s: Seq<usize> = pattern_strands();
    assert(s.drop_last() =~= seq![39usize, 31usize, 38usize]);
    assert(s.drop_last().drop_last() =~= seq![39usize, 31usize]);
    assert(s.drop_last().drop_last().drop_last() =~= seq![39usize]);
    assert(s.drop_last().drop_last().drop_last().drop_last() =~= Seq::<usize>::empty());
    reveal_with_fuel(led_count, 5);
    lemma_strand_colors_len(s, pattern_colors(), 4);
    assert(s.take(4) =~= s);
}

/// Draws the frame that tells the strands of a layout apart.
pub fn identify_strands(strands: &StrandLayout, colors: &[u32]) -> (frame: Vec<u32>)
    ensures
        frame@ == identification_frame(strands@, colors@),
{
    let shown: usize = if colors.len() < strands.strands() {
        colors.len()
    } else {
        strands.strands()
    };
    let mut frame: Vec<u32> = Vec::new();
    let mut idx: usize = 0;
    while idx < shown
        invariant
            idx <= shown,
            shown <= strands@.len(),
            shown <= colors.len(),
            frame@ == strand_colors(strands@, colors@, idx as nat),
        decreases shown - idx,
    {
        let length: usize = strands.length(idx);
        let color: u32 = colors[idx];
        let ghost before: Seq<u32> = frame@;
        let mut j: usize = 0;
        while j < length
            invariant
                j <= length,
                frame@ == before + Seq::new(j as nat, |k: int| color),
            decreases length - j,
        {
            frame.push(color);
            assert(frame@ =~= before + Seq::new((j + 1) as nat, |k: int| color));
            j += 1;
        }
        assert(frame@ =~= before + Seq::new(length as nat, |k: int| colors@[idx as int]));
        idx += 1;
    }
    frame
}

/// Draws the frame of one round of blinking for a strip of `count` LEDs.
pub fn draw_blink(count: usize, check: usize) -> (frame: Vec<u32>)
    ensures
        frame@ == blink_frame(count as nat, check),
{
    let mut frame: Vec<u32> = Vec::new();
    let mut i: usize = 0;
    while i < count
        invariant
            i <= count,
            frame@ == blink_frame(i as nat, check),
        decreases count - i,
    {
        if i % 2 == check {
            frame.push(0);
        } else {
            frame.push(0xff_ffff);
        }
        assert(frame@ =~= blink_frame((i + 1) as nat, check));
        i += 1;
    }
    frame
}

/// Shows the strand identification pattern: the four strands of 39, 31, 38 and 20 LEDs in
/// white, red, green and blue. LEDs beyond these 128 keep what they showed.
pub fn strands_pattern(handle: &mut DeviceController) -> (sent: Result<(), SinkError>)
    ensures
        final(handle).leds() == loaded(
            old(handle).leds(),
            identification_frame(pattern_strands(), pattern_colors()),
        ),
        final(handle).same_setup(old(handle)),
{
    let strands: Vec<usize> = vec![39, 31, 38, 20];
    let colors: Vec<u32> = vec![0xffffff, 0xff0000, 0x00ff00, 0x0000ff];
    proof {
        lemma_pattern_len();
        assert(strands@ =~= pattern_strands());
        assert(colors@ =~= pattern_colors());
    }
    let layout: StrandLayout = StrandLayout::new(strands).unwrap();
    let frame: Vec<u32> = identify_strands(&layout, colors.as_slice());
    handle.apply(frame.as_slice())
}

/// Shows one round of the blink pattern on every LED of the strip, and returns the
/// remainder that the next round takes for dark.
pub fn blink_pattern(handle: &mut DeviceController, check: usize) -> (sent: Result<
    usize,
    SinkError,
>)
    ensures
        final(handle).leds() == blink_frame(old(handle).leds().len(), check),
        final(handle).same_setup(old(handle)),
        sent matches Ok(next) ==> next == next_check(check),
{
    let count: usize = handle.capacity();
    let frame: Vec<u32> = draw_blink(count, check);
    proof {
        lemma_loaded(handle.leds(), frame@);
        assert(frame@.take(count as int) =~= frame@);
    }
    match handle.apply(frame.as_slice()) {
        Ok(_) => Ok(if check == 0 {
            1
        } else {
            0
        }),
        Err(e) => Err(e),
    }
}

} // verus!
