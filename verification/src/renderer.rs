//! Colors, brightness and the per-tick frame renderers.

use crate::daemon::{as_bytes, decode, encode, lemma_decode_encode, ByteOrder};
use crate::firelight_api::{Control, Effect};
use crate::layout::{led_count, lemma_strand_start_step, strand_start, StrandLayout};
use crate::ledstrip::loaded;
use vstd::prelude::*;

verus! {

/// What the control channel carries to the render loop.
#[derive(Copy, Clone, Debug, PartialEq, Eq)]
pub enum RendererCommand {
    /// Stop rendering and leave the loop.
    Shutdown,
    /// Replace the current state with this snapshot.
    ControlMsg(Control),
}

/// One LED's color: red, green and blue, eight bits each.
#[derive(Clone, Copy, Debug, PartialEq, Eq, Structural)]
pub struct LedColor {
    pub r: u8,
    pub g: u8,
    pub b: u8,
}

/// The color of an unlit LED.
pub open spec fn black() -> LedColor {
    LedColor { r: 0, g: 0, b: 0 }
}

/// One channel at the given brightness: `floor(channel * (brightness + 1) / 256)`.
pub open spec fn scaled(channel: int, brightness: int) -> int {
    channel * (brightness + 1) / 256
}

/// Scaling never brightens a channel, and never takes it below zero.
pub proof fn lemma_scaled_bounds(channel: int, brightness: int)
    requires
        0 <= channel,
        0 <= brightness <= 255,
    ensures
        0 <= scaled(channel, brightness) <= channel,
{
    assert(0 <= channel * (brightness + 1) <= channel * 256) by (nonlinear_arith)
        requires
            0 <= channel,
            0 <= brightness <= 255,
    ;
}

/// Full brightness leaves every channel as it is.
pub proof fn lemma_scaled_identity(channel: int)
    ensures
        scaled(channel, 255) == channel,
{
}

/// Brightness zero turns every 8-bit channel off.
pub proof fn lemma_scaled_zero(channel: int)
    requires
        0 <= channel < 256,
    ensures
        scaled(channel, 0) == 0,
{
}

/// A higher brightness never gives a darker channel.
pub proof fn lemma_scaled_monotonic_in_brightness(channel: int, low: int, high: int)
    requires
        0 <= channel,
        low <= high,
    ensures
        scaled(channel, low) <= scaled(channel, high),
{
    assert(channel * (low + 1) <= channel * (high + 1)) by (nonlinear_arith)
        requires
            0 <= channel,
            low <= high,
    ;
}

/// A brighter channel never comes out darker than a dimmer one.
pub proof fn lemma_scaled_monotonic_in_channel(low: int, high: int, brightness: int)
    requires
        low <= high,
        0 <= brightness,
    ensures
        scaled(low, brightness) <= scaled(high, brightness),
{
    assert(low * (brightness + 1) <= high * (brightness + 1)) by (nonlinear_arith)
        requires
            low <= high,
            0 <= brightness,
    ;
}

/// Applies the brightness to one channel.
pub fn scale_channel(channel: u8, brightness: u8) -> (out: u8)
    ensures
        out == scaled(channel as int, brightness as int),
        out <= channel,
{
    proof {
        lemma_scaled_bounds(channel as int, brightness as int);
    }
    let product: u32 = (channel as u32) * (brightness as u32 + 1);
    (product / 256) as u8
}

impl LedColor {
    /// The color as the word `0x00RRGGBB`.
    pub open spec fn word(self) -> u32 {
        (self.r as u32 * 0x1_0000 + self.g as u32 * 0x100 + self.b as u32) as u32
    }

    /// The color that the low 24 bits of a word hold; the high byte is ignored.
    pub open spec fn of_word(x: u32) -> LedColor {
        LedColor {
            r: ((x / 0x1_0000) % 0x100) as u8,
            g: ((x / 0x100) % 0x100) as u8,
            b: (x % 0x100) as u8,
        }
    }

    /// The color with every channel at the given brightness.
    pub open spec fn dimmed(self, brightness: u8) -> LedColor {
        LedColor {
            r: scaled(self.r as int, brightness as int) as u8,
            g: scaled(self.g as int, brightness as int) as u8,
            b: scaled(self.b as int, brightness as int) as u8,
        }
    }

    /// Reads the color out of a word laid out as `0x00RRGGBB`.
    pub fn from_u32_rgb(x: u32) -> (c: LedColor)
        ensures
            c == LedColor::of_word(x),
    {
        assert((x >> 16) & 0xff == (x / 0x1_0000) % 0x100) by (bit_vector);
        assert((x >> 8) & 0xff == (x / 0x100) % 0x100) by (bit_vector);
        assert(x & 0xff == x % 0x100) by (bit_vector);
        LedColor {
            r: ((x >> 16) & 0xff) as u8,
            g: ((x >> 8) & 0xff) as u8,
            b: (x & 0xff) as u8,
        }
    }

    /// Builds the color from its channels in the order red, green, blue.
    pub fn from_u8_rgb(x: [u8; 3]) -> (c: LedColor)
        ensures
            c == (LedColor { r: x[0], g: x[1], b: x[2] }),
    {
        LedColor { r: x[0], g: x[1], b: x[2] }
    }

    /// Packs the color into a word laid out as `0x00RRGGBB`.
    pub fn to_u32_rgb(&self) -> (x: u32)
        ensures
            x == self.word(),
            x <= 0x00ff_ffff,
    {
        let r: u32 = self.r as u32;
        let g: u32 = self.g as u32;
        let b: u32 = self.b as u32;
        assert((r << 16) | (g << 8) | b == r * 0x1_0000 + g * 0x100 + b) by (bit_vector)
            requires
                r < 0x100,
                g < 0x100,
                b < 0x100,
        ;
        (r << 16) | (g << 8) | b
    }

    /// Applies the brightness to each channel.
    pub fn scale(&self, brightness: u8) -> (c: LedColor)
        ensures
            c == self.dimmed(brightness),
    {
        LedColor {
            r: scale_channel(self.r, brightness),
            g: scale_channel(self.g, brightness),
            b: scale_channel(self.b, brightness),
        }
    }
}

/// Packing a color into a word and reading it back gives the same color.
pub proof fn lemma_color_round_trip(c: LedColor)
    ensures
        LedColor::of_word(c.word()) == c,
{
    let r: u32 = c.r as u32;
    let g: u32 = c.g as u32;
    let b: u32 = c.b as u32;
    let x: u32 = c.word();
    assert(x == r * 0x1_0000 + g * 0x100 + b);
    assert((x / 0x1_0000) % 0x100 == r && (x / 0x100) % 0x100 == g && x % 0x100 == b)
        by (bit_vector)
        requires
            x == r * 0x1_0000 + g * 0x100 + b,
            r < 0x100,
            g < 0x100,
            b < 0x100,
    ;
}

/// Reading a word and packing it again keeps its low 24 bits and clears the rest.
pub proof fn lemma_of_word_packs_low_bits(x: u32)
    ensures
        LedColor::of_word(x).word() == x % 0x100_0000,
{
    let r: u32 = (x / 0x1_0000) % 0x100;
    let g: u32 = (x / 0x100) % 0x100;
    let b: u32 = x % 0x100;
    assert(r * 0x1_0000 + g * 0x100 + b == x % 0x100_0000) by (bit_vector)
        requires
            r == (x / 0x1_0000) % 0x100,
            g == (x / 0x100) % 0x100,
            b == x % 0x100,
    ;
}

/// Full brightness leaves a color as it is; brightness zero makes it black.
pub proof fn lemma_dimmed_extremes(c: LedColor)
    ensures
        c.dimmed(255) == c,
        c.dimmed(0) == black(),
        forall|brightness: u8| black().dimmed(brightness) == black(),
{
}

/// The static effect: every LED of every strand shows the color.
pub open spec fn static_frame(lengths: Seq<usize>, color: LedColor) -> Seq<LedColor> {
    Seq::new(led_count(lengths), |i: int| color)
}

/// One strand of the fire effect: the first `unlit` LEDs are dark and the others show the
/// color. A strand shorter than `unlit` is dark throughout.
pub open spec fn ember_line(length: usize, unlit: usize, color: LedColor) -> Seq<LedColor> {
    Seq::new(length as nat, |j: int| if j < unlit { black() } else { color })
}

/// The fire effect on the first `n` strands, one ember line after the other.
pub open spec fn fire_strands(
    lengths: Seq<usize>,
    unlit: Seq<usize>,
    color: LedColor,
    n: nat,
) -> Seq<LedColor>
    decreases n,
{
    if n == 0 {
        Seq::empty()
    } else {
        fire_strands(lengths, unlit, color, (n - 1) as nat) + ember_line(
            lengths[n - 1],
            unlit[n - 1],
            color,
        )
    }
}

/// The fire effect: strand `i` is an ember line with `unlit[i]` dark LEDs.
pub open spec fn fire_frame(lengths: Seq<usize>, unlit: Seq<usize>, color: LedColor) -> Seq<
    LedColor,
> {
    fire_strands(lengths, unlit, color, lengths.len())
}

/// What an effect draws before the lamp's switch and brightness are applied.
pub open spec fn effect_frame(
    effect: Effect,
    lengths: Seq<usize>,
    unlit: Seq<usize>,
    color: LedColor,
) -> Seq<LedColor> {
    match effect {
        Effect::Static => static_frame(lengths, color),
        Effect::Fire => fire_frame(lengths, unlit, color),
    }
}

/// What one LED shows of the color an effect drew for it: black while the lamp is off, and
/// the color at the lamp's brightness otherwise.
pub open spec fn shown(control: Control, drawn: LedColor) -> LedColor {
    (if control.on {
        drawn
    } else {
        black()
    }).dimmed(control.brightness)
}

/// The frame of one tick: the effect's drawing, then the switch, then the brightness.
pub open spec fn rendered_frame(
    control: Control,
    lengths: Seq<usize>,
    unlit: Seq<usize>,
    color: LedColor,
) -> Seq<LedColor> {
    effect_frame(control.effect, lengths, unlit, color).map_values(
        |drawn: LedColor| shown(control, drawn),
    )
}

/// The fire effect on the first `n` strands fills exactly the LEDs of those strands.
pub proof fn lemma_fire_strands_len(
    lengths: Seq<usize>,
    unlit: Seq<usize>,
    color: LedColor,
    n: nat,
)
    requires
        n <= lengths.len(),
    ensures
        fire_strands(lengths, unlit, color, n).len() == strand_start(lengths, n as int),
    decreases n,
{
    if n == 0 {
        assert(lengths.take(0).len() == 0);
    } else {
        lemma_fire_strands_len(lengths, unlit, color, (n - 1) as nat);
        lemma_strand_start_step(lengths, n - 1);
    }
}

/// Drawing further strands leaves the LEDs of the earlier ones as they were drawn.
pub proof fn lemma_fire_strands_prefix(
    lengths: Seq<usize>,
    unlit: Seq<usize>,
    color: LedColor,
    m: nat,
    n: nat,
    led: int,
)
    requires
        m <= n <= lengths.len(),
        0 <= led < strand_start(lengths, m as int),
    ensures
        fire_strands(lengths, unlit, color, n)[led] == fire_strands(lengths, unlit, color, m)[led],
    decreases n,
{
    if m < n {
        lemma_fire_strands_prefix(lengths, unlit, color, m, (n - 1) as nat, led);
        lemma_fire_strands_len(lengths, unlit, color, m);
        lemma_fire_strands_len(lengths, unlit, color, (n - 1) as nat);
        crate::layout::lemma_strand_start_monotonic(lengths, m as int, n - 1);
    }
}

/// Every effect fills exactly the LEDs of the layout, whatever the ember heights.
pub proof fn lemma_frame_len(
    control: Control,
    lengths: Seq<usize>,
    unlit: Seq<usize>,
    color: LedColor,
)
    ensures
        static_frame(lengths, color).len() == led_count(lengths),
        fire_frame(lengths, unlit, color).len() == led_count(lengths),
        effect_frame(control.effect, lengths, unlit, color).len() == led_count(lengths),
        rendered_frame(control, lengths, unlit, color).len() == led_count(lengths),
{
    lemma_fire_strands_len(lengths, unlit, color, lengths.len());
    assert(lengths.take(lengths.len() as int) =~= lengths);
}

/// In the fire effect, LED `j` of a strand is dark exactly when `j` is below the strand's
/// ember height.
pub proof fn lemma_fire_frame_led(
    lengths: Seq<usize>,
    unlit: Seq<usize>,
    color: LedColor,
    strand: int,
    j: int,
)
    requires
        0 <= strand < lengths.len(),
        0 <= j < lengths[strand],
    ensures
        strand_start(lengths, strand) + j < led_count(lengths),
        fire_frame(lengths, unlit, color)[strand_start(lengths, strand) + j] == if j
            < unlit[strand] {
            black()
        } else {
            color
        },
{
    let led: int = strand_start(lengths, strand) + j;
    lemma_strand_start_step(lengths, strand);
    crate::layout::lemma_strand_start_monotonic(lengths, strand + 1, lengths.len() as int);
    lemma_fire_strands_len(lengths, unlit, color, strand as nat);
    lemma_fire_strands_prefix(
        lengths,
        unlit,
        color,
        (strand + 1) as nat,
        lengths.len(),
        led,
    );
}

/// With every ember height at zero the fire effect draws what the static effect draws.
pub proof fn lemma_fire_without_embers(lengths: Seq<usize>, unlit: Seq<usize>, color: LedColor)
    requires
        forall|i: int| 0 <= i < lengths.len() ==> unlit[i] == 0,
    ensures
        fire_frame(lengths, unlit, color) == static_frame(lengths, color),
{
    assert forall|i: int| 0 <= i < lengths.len() implies #[trigger] ember_line(
        lengths[i],
        unlit[i],
        color,
    ) == Seq::new(lengths[i] as nat, |j: int| color) by {
        assert(ember_line(lengths[i], unlit[i], color) =~= Seq::new(
            lengths[i] as nat,
            |j: int| color,
        ));
    }
    lemma_fire_strands_uniform(lengths, unlit, color, color, lengths.len());
    assert(lengths.take(lengths.len() as int) =~= lengths);
}

/// With every ember height at the length of its strand, or beyond, the fire effect draws
/// a dark frame.
pub proof fn lemma_fire_all_embers(lengths: Seq<usize>, unlit: Seq<usize>, color: LedColor)
    requires
        forall|i: int| 0 <= i < lengths.len() ==> unlit[i] >= lengths[i],
    ensures
        fire_frame(lengths, unlit, color) == static_frame(lengths, black()),
{
    assert forall|i: int| 0 <= i < lengths.len() implies #[trigger] ember_line(
        lengths[i],
        unlit[i],
        color,
    ) == Seq::new(lengths[i] as nat, |j: int| black()) by {
        assert(ember_line(lengths[i], unlit[i], color) =~= Seq::new(
            lengths[i] as nat,
            |j: int| black(),
        ));
    }
    lemma_fire_strands_uniform(lengths, unlit, color, black(), lengths.len());
    assert(lengths.take(lengths.len() as int) =~= lengths);
}

/// If each of the first `n` strands is drawn in one and the same color throughout, so is
/// the frame of these strands.
proof fn lemma_fire_strands_uniform(
    lengths: Seq<usize>,
    unlit: Seq<usize>,
    color: LedColor,
    seen: LedColor,
    n: nat,
)
    requires
        n <= lengths.len(),
        forall|i: int|
            0 <= i < n ==> #[trigger] ember_line(lengths[i], unlit[i], color) == Seq::new(
                lengths[i] as nat,
                |j: int| seen,
            ),
    ensures
        fire_strands(lengths, unlit, color, n) == Seq::new(
            strand_start(lengths, n as int),
            |i: int| seen,
        ),
    decreases n,
{
    lemma_fire_strands_len(lengths, unlit, color, n);
    if n > 0 {
        lemma_fire_strands_uniform(lengths, unlit, color, seen, (n - 1) as nat);
        lemma_fire_strands_len(lengths, unlit, color, (n - 1) as nat);
        assert(ember_line(lengths[n - 1], unlit[n - 1], color) == Seq::new(
            lengths[n - 1] as nat,
            |j: int| seen,
        ));
    }
    assert(fire_strands(lengths, unlit, color, n) =~= Seq::new(
        strand_start(lengths, n as int),
        |i: int| seen,
    ));
}

/// While the lamp is off every LED of the frame is black, whatever the effect, the color,
/// the brightness and the ember heights.
pub proof fn lemma_off_is_black(
    control: Control,
    lengths: Seq<usize>,
    unlit: Seq<usize>,
    color: LedColor,
)
    requires
        !control.on,
    ensures
        rendered_frame(control, lengths, unlit, color) == static_frame(lengths, black()),
{
    lemma_frame_len(control, lengths, unlit, color);
    assert(rendered_frame(control, lengths, unlit, color) =~= static_frame(lengths, black()));
}

/// A lamp that is on, at full brightness and in the static effect shows the configured color
/// on every LED, unattenuated.
pub proof fn lemma_static_at_full_brightness(
    control: Control,
    lengths: Seq<usize>,
    unlit: Seq<usize>,
    color: LedColor,
)
    requires
        control.on,
        control.brightness == 255,
        control.effect == Effect::Static,
    ensures
        rendered_frame(control, lengths, unlit, color) == static_frame(lengths, color),
{
    assert(rendered_frame(control, lengths, unlit, color) =~= static_frame(lengths, color));
}

/// Draws the static effect.
pub fn render_static(color: LedColor, strands: &StrandLayout) -> (frame: Vec<LedColor>)
    ensures
        frame@ == static_frame(strands@, color),
        frame.len() == led_count(strands@),
{
    let total: usize = strands.total();
    let mut result: Vec<LedColor> = Vec::new();
    let mut i: usize = 0;
    while i < total
        invariant
            i <= total,
            result@ == Seq::new(i as nat, |k: int| color),
        decreases total - i,
    {
        result.push(color);
        i += 1;
    }
    result
}

/// Draws the fire effect from one ember height for each strand.
pub fn render_fire(color: LedColor, strands: &StrandLayout, unlit: &[usize]) -> (frame: Vec<
    LedColor,
>)
    requires
        unlit.len() == strands@.len(),
    ensures
        frame@ == fire_frame(strands@, unlit@, color),
        frame.len() == led_count(strands@),
{
    let dark: LedColor = LedColor::from_u32_rgb(0x0);
    let mut result: Vec<LedColor> = Vec::new();
    let mut i: usize = 0;
    while i < strands.strands()
        invariant
            i <= strands@.len(),
            unlit.len() == strands@.len(),
            dark == black(),
            result@ == fire_strands(strands@, unlit@, color, i as nat),
        decreases strands@.len() - i,
    {
        let length: usize = strands.length(i);
        let num: usize = unlit[i];
        let ghost before: Seq<LedColor> = result@;
        let mut j: usize = 0;
        while j < length
            invariant
                j <= length,
                dark == black(),
                result@ == before + ember_line(length, num, color).take(j as int),
            decreases length - j,
        {
            if j < num {
                result.push(dark);
            } else {
                result.push(color);
            }
            j += 1;
        }
        assert(ember_line(length, num, color).take(length as int) =~= ember_line(
            length,
            num,
            color,
        ));
        i += 1;
    }
    proof {
        lemma_frame_len(Control::initial(), strands@, unlit@, color);
    }
    result
}

/// Renders the frame of one tick: draws the effect, blacks the frame out while the lamp is
/// off, and applies the brightness.
pub fn render_frame(control: &Control, color: LedColor, strands: &StrandLayout, unlit: &[usize])
    -> (frame: Vec<LedColor>)
    requires
        control.effect == Effect::Fire ==> unlit.len() == strands@.len(),
    ensures
        frame@ == rendered_frame(*control, strands@, unlit@, color),
        frame.len() == led_count(strands@),
        !control.on ==> frame@ == static_frame(strands@, black()),
{
    proof {
        if !control.on {
            lemma_off_is_black(*control, strands@, unlit@, color);
        }
    }
    let drawn: Vec<LedColor> = match control.effect {
        Effect::Static => render_static(color, strands),
        Effect::Fire => render_fire(color, strands, unlit),
    };
    let dark: LedColor = LedColor::from_u32_rgb(0x0);
    let mut out: Vec<LedColor> = Vec::new();
    let mut i: usize = 0;
    while i < drawn.len()
        invariant
            i <= drawn.len(),
            dark == black(),
            out@ == drawn@.take(i as int).map_values(|c: LedColor| shown(*control, c)),
        decreases drawn.len() - i,
    {
        let switched: LedColor = if control.on {
            drawn[i]
        } else {
            dark
        };
        out.push(switched.scale(control.brightness));
        assert(drawn@.take(i + 1).map_values(|c: LedColor| shown(*control, c))
            =~= drawn@.take(i as int).map_values(|c: LedColor| shown(*control, c)).push(
            shown(*control, drawn@[i as int]),
        ));
        i += 1;
    }
    assert(drawn@.take(drawn.len() as int) =~= drawn@);
    out
}

/// The color words of a frame, one for each LED.
pub open spec fn words_of(frame: Seq<LedColor>) -> Seq<u32> {
    frame.map_values(|c: LedColor| c.word())
}

/// The frame that a sequence of color words stands for.
pub open spec fn colors_of(words: Seq<u32>) -> Seq<LedColor> {
    words.map_values(|x: u32| LedColor::of_word(x))
}

/// A frame that is sent over the wire and taken in whole arrives as it was sent: the same
/// colors in the same order.
pub proof fn lemma_wire_round_trip(order: ByteOrder, frame: Seq<LedColor>)
    ensures
        encode(order, words_of(frame)).len() == 4 * frame.len(),
        colors_of(decode(order, encode(order, words_of(frame)))) == frame,
{
    lemma_decode_encode(order, words_of(frame));
    assert forall|i: int| 0 <= i < frame.len() implies #[trigger] colors_of(words_of(frame))[i]
        == frame[i] by {
        lemma_color_round_trip(frame[i]);
    }
    assert(colors_of(words_of(frame)) =~= frame);
}

/// A strip that has one LED for each LED of the layout shows, after a frame of a lamp that
/// is on, at full brightness and in the static effect was applied to it, the configured
/// color on every LED, whatever it showed before.
pub proof fn lemma_static_fills_strip(
    control: Control,
    lengths: Seq<usize>,
    unlit: Seq<usize>,
    color: LedColor,
    buffer: Seq<u32>,
)
    requires
        control.on,
        control.brightness == 255,
        control.effect == Effect::Static,
        buffer.len() == led_count(lengths),
    ensures
        loaded(buffer, words_of(rendered_frame(control, lengths, unlit, color))) == Seq::new(
            buffer.len(),
            |i: int| color.word(),
        ),
{
    lemma_static_at_full_brightness(control, lengths, unlit, color);
    assert(loaded(buffer, words_of(rendered_frame(control, lengths, unlit, color))) =~= Seq::new(
        buffer.len(),
        |i: int| color.word(),
    ));
}

/// Packs each color of a frame into its word.
pub fn frame_words(frame: &[LedColor]) -> (words: Vec<u32>)
    ensures
        words@ == words_of(frame@),
{
    let mut out: Vec<u32> = Vec::new();
    let mut i: usize = 0;
    while i < frame.len()
        invariant
            i <= frame.len(),
            out@ == words_of(frame@.take(i as int)),
        decreases frame.len() - i,
    {
        out.push(frame[i].to_u32_rgb());
        assert(words_of(frame@.take(i + 1)) =~= words_of(frame@.take(i as int)).push(
            frame@[i as int].word(),
        ));
        i += 1;
    }
    assert(frame@.take(frame.len() as int) =~= frame@);
    out
}

/// Reads the color out of each word.
pub fn words_frame(words: &[u32]) -> (frame: Vec<LedColor>)
    ensures
        frame@ == colors_of(words@),
{
    let mut out: Vec<LedColor> = Vec::new();
    let mut i: usize = 0;
    while i < words.len()
        invariant
            i <= words.len(),
            out@ == colors_of(words@.take(i as int)),
        decreases words.len() - i,
    {
        out.push(LedColor::from_u32_rgb(words[i]));
        assert(colors_of(words@.take(i + 1)) =~= colors_of(words@.take(i as int)).push(
            LedColor::of_word(words@[i as int]),
        ));
        i += 1;
    }
    assert(words@.take(words.len() as int) =~= words@);
    out
}

/// The time in milliseconds that a render loop waits for a command before it renders the
/// next frame: a sixtieth of a second, in whole milliseconds.
pub const TICK_MILLIS: u64 = 16;

/// The number of ticks in which the synthetic clock of the effects advances by one.
pub const TICKS_PER_CLOCK_UNIT: u64 = 100;

/// Where a render loop stands.
#[derive(Copy, Clone, Debug, PartialEq, Eq, Structural)]
pub enum Phase {
    /// The lamp is off: every LED is dark, whatever the effect.
    Idle,
    /// The lamp is on and shows the effect.
    Active(Effect),
    /// The loop has stopped and renders no more.
    Stopped,
}

/// What a render loop owns: the layout it draws for, the state it received last, its
/// clock, and whether it has been shut down.
pub struct RenderThreadData {
    /// The strands of the lamp.
    pub strands: StrandLayout,
    /// The control snapshot received last.
    pub state: Control,
    /// The number of ticks rendered, counted modulo 2^64.
    pub ticks: u64,
    /// Whether the loop has stopped: a shutdown was received, or a frame could not be
    /// written to the sink.
    pub stopped: bool,
}

impl RenderThreadData {
    /// The phase that the loop is in.
    pub open spec fn phase_of(self) -> Phase {
        if self.stopped {
            Phase::Stopped
        } else if self.state.on {
            Phase::Active(self.state.effect)
        } else {
            Phase::Idle
        }
    }

    /// The loop after a wait for a command that ended with `received`: nothing if the wait
    /// timed out. A loop that has been shut down stays as it is.
    pub open spec fn after(self, received: Option<RendererCommand>) -> RenderThreadData {
        if self.stopped {
            self
        } else {
            match received {
                None => self,
                Some(RendererCommand::Shutdown) => RenderThreadData { stopped: true, ..self },
                Some(RendererCommand::ControlMsg(control)) => RenderThreadData {
                    state: control,
                    ..self
                },
            }
        }
    }

    /// The loop after one wait after the other, the earliest first.
    pub open spec fn after_all(self, received: Seq<Option<RendererCommand>>) -> RenderThreadData
        decreases received.len(),
    {
        if received.len() == 0 {
            self
        } else {
            self.after_all(received.drop_last()).after(received.last())
        }
    }

    /// A loop at startup: the lamp is off, and no tick has been rendered.
    pub fn new(strands: StrandLayout) -> (data: RenderThreadData)
        ensures
            data.strands == strands,
            data.state == Control::initial(),
            data.ticks == 0,
            !data.stopped,
            data.phase_of() == Phase::Idle,
    {
        RenderThreadData { strands, state: Control::default(), ticks: 0, stopped: false }
    }

    /// The phase that the loop is in.
    pub fn phase(&self) -> (phase: Phase)
        ensures
            phase == self.phase_of(),
    {
        if self.stopped {
            Phase::Stopped
        } else if self.state.on {
            Phase::Active(self.state.effect)
        } else {
            Phase::Idle
        }
    }

    /// Advances the clock by one tick. The clock goes by ticks, not by the time that has
    /// passed, so that what is rendered depends on the number of ticks alone.
    pub fn advance(&mut self)
        ensures
            final(self).ticks == (old(self).ticks + 1) % 0x1_0000_0000_0000_0000,
            final(self).strands == old(self).strands,
            final(self).state == old(self).state,
            final(self).stopped == old(self).stopped,
    {
        self.ticks = self.ticks.wrapping_add(1);
    }

    /// Renders the frame of the current tick from the configured color and, for the fire
    /// effect, one ember height for each strand.
    pub fn render(&self, color: LedColor, unlit: &[usize]) -> (frame: Vec<LedColor>)
        requires
            self.state.effect == Effect::Fire ==> unlit.len() == self.strands@.len(),
        ensures
            frame@ == rendered_frame(self.state, self.strands@, unlit@, color),
            frame.len() == led_count(self.strands@),
            !self.state.on ==> frame@ == static_frame(self.strands@, black()),
    {
        render_frame(&self.state, color, &self.strands, unlit)
    }

    /// Renders the frame of the current tick and encodes it for the wire.
    pub fn payload(&self, color: LedColor, unlit: &[usize], order: ByteOrder) -> (bytes: Vec<u8>)
        requires
            self.state.effect == Effect::Fire ==> unlit.len() == self.strands@.len(),
        ensures
            bytes@ == encode(
                order,
                words_of(rendered_frame(self.state, self.strands@, unlit@, color)),
            ),
            bytes.len() == 4 * led_count(self.strands@),
    {
        let frame: Vec<LedColor> = self.render(color, unlit);
        let out: Vec<u32> = frame_words(frame.as_slice());
        as_bytes(out.as_slice(), order)
    }

    /// Takes in whether the frame of the current tick was written to the sink, and says
    /// whether the loop goes on. A frame that could not be written stops the loop for good;
    /// nothing else changes.
    pub fn delivered(&mut self, written: bool) -> (running: bool)
        ensures
            final(self).stopped == (old(self).stopped || !written),
            running == !final(self).stopped,
            final(self).strands == old(self).strands,
            final(self).state == old(self).state,
            final(self).ticks == old(self).ticks,
    {
        if !written {
            self.stopped = true;
        }
        !self.stopped
    }

    /// Takes in what the wait for a command brought, `None` if it timed out, and says
    /// whether the loop goes on. A snapshot replaces the whole state at once; a shutdown
    /// stops the loop for good.
    pub fn receive(&mut self, received: Option<RendererCommand>) -> (running: bool)
        ensures
            *final(self) == old(self).after(received),
            running == !final(self).stopped,
    {
        if self.stopped {
            return false;
        }
        match received {
            None => true,
            Some(RendererCommand::Shutdown) => {
                self.stopped = true;
                false
            },
            Some(RendererCommand::ControlMsg(control)) => {
                self.state = control;
                true
            },
        }
    }
}

/// A loop that has been shut down stays shut down, whatever it receives.
pub proof fn lemma_stopped_is_final(data: RenderThreadData, received: Option<RendererCommand>)
    requires
        data.stopped,
    ensures
        data.after(received) == data,
        data.after(received).phase_of() == Phase::Stopped,
{
}

/// Of two snapshots received one after the other, the later one is the state: a snapshot
/// replaces the state whole and leaves nothing of the one before.
pub proof fn lemma_latest_snapshot_wins(data: RenderThreadData, first: Control, second: Control)
    requires
        !data.stopped,
    ensures
        data.after(Some(RendererCommand::ControlMsg(first))).after(
            Some(RendererCommand::ControlMsg(second)),
        ) == data.after(Some(RendererCommand::ControlMsg(second))),
        data.after(Some(RendererCommand::ControlMsg(second))).state == second,
        data.after(Some(RendererCommand::ControlMsg(second))).strands == data.strands,
{
}

/// Receiving changes neither the layout nor the clock; a loop that was stopped stays as it
/// is; and a loop that is still running has not been sent a shutdown.
pub proof fn lemma_layout_is_fixed(data: RenderThreadData, received: Seq<Option<RendererCommand>>)
    ensures
        data.after_all(received).strands == data.strands,
        data.after_all(received).ticks == data.ticks,
        data.stopped ==> data.after_all(received) == data,
        !data.after_all(received).stopped ==> forall|i: int|
            0 <= i < received.len() ==> received[i] != Some(RendererCommand::Shutdown),
    decreases received.len(),
{
    if received.len() > 0 {
        lemma_layout_is_fixed(data, received.drop_last());
        assert forall|i: int|
            !data.after_all(received).stopped && 0 <= i < received.len() implies received[i]
            != Some(RendererCommand::Shutdown) by {
            if i < received.len() - 1 {
                assert(received.drop_last()[i] == received[i]);
            }
        }
    }
}

/// A running loop that receives a shutdown is stopped from then on, whatever else it
/// receives before or after.
pub proof fn lemma_shutdown_stops(
    data: RenderThreadData,
    received: Seq<Option<RendererCommand>>,
    at: int,
)
    requires
        0 <= at < received.len(),
        received[at] == Some(RendererCommand::Shutdown),
    ensures
        data.after_all(received).stopped,
{
    lemma_layout_is_fixed(data, received);
}

/// The state of a running loop is the snapshot that it received last: snapshots that were
/// received before it leave no trace, and waits that timed out change nothing.
pub proof fn lemma_last_snapshot_is_the_state(
    data: RenderThreadData,
    received: Seq<Option<RendererCommand>>,
    at: int,
    control: Control,
)
    requires
        0 <= at < received.len(),
        received[at] == Some(RendererCommand::ControlMsg(control)),
        forall|i: int| at < i < received.len() ==> received[i] is None,
        !data.after_all(received).stopped,
    ensures
        data.after_all(received).state == control,
    decreases received.len(),
{
    lemma_layout_is_fixed(data, received);
    lemma_layout_is_fixed(data, received.drop_last());
    if at < received.len() - 1 {
        assert(received.drop_last()[at] == received[at]);
        assert forall|i: int| at < i < received.drop_last().len() implies received.drop_last()[i]
            is None by {
            assert(received.drop_last()[i] == received[i]);
        }
        lemma_last_snapshot_is_the_state(data, received.drop_last(), at, control);
    }
}

/// A loop is idle exactly while the lamp is off, whatever the effect.
pub proof fn lemma_off_is_idle(data: RenderThreadData)
    requires
        !data.stopped,
    ensures
        data.phase_of() == Phase::Idle <==> !data.state.on,
        data.state.on ==> data.phase_of() == Phase::Active(data.state.effect),
{
}

} // verus!
