//! Configuration model of the bar.
//!
//! Durations are carried as whole microseconds and ratios as parts per
//! million, so that every delay computation is exact integer arithmetic.

use vstd::prelude::*;
use vstd::arithmetic::div_mod::{lemma_div_is_ordered, lemma_div_multiples_vanish_quotient};

use crate::components::power::PowerInit;
use crate::components::razer_mouse::RazerMouseInit;
use crate::components::time::TimeInit;
use crate::components::volume::VolumeInit;
use crate::components::workspaces::WorkspacesInit;
use crate::hex::hex_value_of;
use crate::icons::{material_design_icon, resolved_codepoint, table_view, valid_codepoint,
    CodepointTable};
use crate::util::{dec_string_of, str_eq, u32_to_decimal};

verus! {

/// What a bar component renders as its icon: literal text, a sequence of
/// icons, or a glyph of the icon font named by id.
#[derive(Debug)]
pub enum Icon {
    Literal { text: String },
    Multiple { icons: Vec<Icon> },
    Material { id: String },
}

/// The mathematical shape of an icon: its text content, free of the
/// containers the executable type carries it in.
pub ghost enum IconView {
    Literal(Seq<char>),
    Multiple(Seq<IconView>),
    Material(Seq<char>),
}

/// The view of an icon.
pub open spec fn icon_view(icon: Icon) -> IconView
    decreases icon,
{
    match icon {
        Icon::Literal { text } => IconView::Literal(text@),
        Icon::Multiple { icons } => IconView::Multiple(icon_views(icons@)),
        Icon::Material { id } => IconView::Material(id@),
    }
}

/// The views of a sequence of icons.
pub open spec fn icon_views(s: Seq<Icon>) -> Seq<IconView>
    decreases s,
{
    if s.len() == 0 {
        Seq::<IconView>::empty()
    } else {
        icon_views(s.drop_last()).push(icon_view(s.last()))
    }
}

/// `icon_views` maps the sequence element-wise.
pub proof fn lemma_icon_views_index(s: Seq<Icon>)
    ensures
        icon_views(s).len() == s.len(),
        forall|i: int| 0 <= i < s.len() ==> icon_views(s)[i] == icon_view(#[trigger] s[i]),
    decreases s.len(),
{
    if s.len() > 0 {
        lemma_icon_views_index(s.drop_last());
        assert(forall|i: int| 0 <= i < s.len() - 1 ==> s.drop_last()[i] == #[trigger] s[i]);
    }
}

/// Sequences with element-wise equal views have equal views.
pub proof fn lemma_icon_views_pointwise(a: Seq<Icon>, b: Seq<Icon>)
    requires
        a.len() == b.len(),
        forall|i: int| 0 <= i < a.len() ==> icon_view(#[trigger] a[i]) == icon_view(b[i]),
    ensures
        icon_views(a) == icon_views(b),
    decreases a.len(),
{
    if a.len() > 0 {
        lemma_icon_views_pointwise(a.drop_last(), b.drop_last());
        assert(forall|i: int| 0 <= i < a.len() - 1 ==> a.drop_last()[i] == #[trigger] a[i]);
        assert(forall|i: int| 0 <= i < b.len() - 1 ==> b.drop_last()[i] == #[trigger] b[i]);
        assert(icon_views(a) =~= icon_views(b));
    } else {
        assert(icon_views(a) =~= icon_views(b));
    }
}

/// The text an icon shape renders to, given the icon font's codepoint
/// table.
pub open spec fn iv_text(v: IconView, t: Seq<(Seq<char>, Seq<char>)>) -> Seq<char>
    decreases v,
{
    match v {
        IconView::Literal(text) => text,
        IconView::Multiple(vs) => ivs_text(vs, t),
        IconView::Material(id) => seq![(hex_value_of(resolved_codepoint(t, id)) as char)],
    }
}

/// The concatenated text of a sequence of icon shapes.
pub open spec fn ivs_text(vs: Seq<IconView>, t: Seq<(Seq<char>, Seq<char>)>) -> Seq<char>
    decreases vs,
{
    if vs.len() == 0 {
        Seq::<char>::empty()
    } else {
        ivs_text(vs.drop_last(), t) + iv_text(vs.last(), t)
    }
}

/// True when every icon-font glyph the shape mentions resolves to a
/// well-formed codepoint in the table.
pub open spec fn iv_ok(v: IconView, t: Seq<(Seq<char>, Seq<char>)>) -> bool
    decreases v,
{
    match v {
        IconView::Literal(text) => true,
        IconView::Multiple(vs) => ivs_ok(vs, t),
        IconView::Material(id) => valid_codepoint(resolved_codepoint(t, id)),
    }
}

/// `iv_ok` over a sequence of icon shapes.
pub open spec fn ivs_ok(vs: Seq<IconView>, t: Seq<(Seq<char>, Seq<char>)>) -> bool
    decreases vs,
{
    if vs.len() == 0 {
        true
    } else {
        ivs_ok(vs.drop_last(), t) && iv_ok(vs.last(), t)
    }
}

/// The text an icon renders to.
pub open spec fn icon_text(icon: Icon, t: Seq<(Seq<char>, Seq<char>)>) -> Seq<char> {
    iv_text(icon_view(icon), t)
}

/// True when the icon's glyphs all resolve well in the table.
pub open spec fn icon_ok(icon: Icon, t: Seq<(Seq<char>, Seq<char>)>) -> bool {
    iv_ok(icon_view(icon), t)
}

/// Every shape of a well-formed sequence is well-formed.
pub proof fn lemma_ivs_ok_index(vs: Seq<IconView>, t: Seq<(Seq<char>, Seq<char>)>, i: int)
    requires
        ivs_ok(vs, t),
        0 <= i < vs.len(),
    ensures
        iv_ok(vs[i], t),
    decreases vs.len(),
{
    if i < vs.len() - 1 {
        assert(vs.drop_last()[i] == vs[i]);
        lemma_ivs_ok_index(vs.drop_last(), t, i);
    }
}

impl Clone for Icon {
    /// An icon clones to one of the same shape.
    fn clone(&self) -> (r: Self)
        ensures
            icon_view(r) == icon_view(*self),
        decreases *self,
    {
        match self {
            Icon::Literal { text } => Icon::Literal { text: text.clone() },
            Icon::Material { id } => Icon::Material { id: id.clone() },
            Icon::Multiple { icons } => {
                let n = icons.len();
                let mut copies: Vec<Icon> = Vec::new();
                let mut i: usize = 0;
                while i < n
                    invariant
                        0 <= i <= n,
                        n == icons@.len(),
                        copies@.len() == i,
                        forall|j: int|
                            0 <= j < i ==> icon_view(#[trigger] copies@[j]) == icon_view(
                                icons@[j],
                            ),
                        *self == (Icon::Multiple { icons: *icons }),
                    decreases n - i,
                {
                    proof {
                        vstd::std_specs::vec::axiom_vec_index_decreases(*icons, i as int);
                        assert(decreases_to!(*self => self->Multiple_icons));
                        assert(self->Multiple_icons == *icons);
                        assert(decreases_to!(*self => icons@[i as int]));
                    }
                    let c = icons[i].clone();
                    copies.push(c);
                    i = i + 1;
                }
                proof {
                    lemma_icon_views_pointwise(copies@, icons@);
                }
                Icon::Multiple { icons: copies }
            },
        }
    }
}

impl Icon {
    /// Renders the icon to its text, resolving icon-font glyphs through the
    /// codepoint table.
    pub fn to_string(&self, table: &CodepointTable) -> (r: String)
        requires
            icon_ok(*self, table_view(table.entries@)),
        ensures
            r@ == icon_text(*self, table_view(table.entries@)),
        decreases *self,
    {
        let ghost t = table_view(table.entries@);
        match self {
            Icon::Literal { text } => text.clone(),
            Icon::Material { id } => material_design_icon(table, id.as_str()),
            Icon::Multiple { icons } => {
                let ghost vs = icon_views(icons@);
                proof {
                    lemma_icon_views_index(icons@);
                }
                let n = icons.len();
                let mut acc = String::new();
                assert(acc@ =~= ivs_text(icon_views(icons@.take(0)), t)) by {
                    assert(icons@.take(0) =~= Seq::<Icon>::empty());
                }
                let mut i: usize = 0;
                while i < n
                    invariant
                        0 <= i <= n,
                        n == icons@.len(),
                        t == table_view(table.entries@),
                        vs == icon_views(icons@),
                        ivs_ok(vs, t),
                        forall|j: int|
                            0 <= j < n ==> vs[j] == icon_view(#[trigger] icons@[j]),
                        vs.len() == n,
                        acc@ == ivs_text(icon_views(icons@.take(i as int)), t),
                        *self == (Icon::Multiple { icons: *icons }),
                    decreases n - i,
                {
                    proof {
                        lemma_ivs_ok_index(vs, t, i as int);
                        vstd::std_specs::vec::axiom_vec_index_decreases(*icons, i as int);
                        assert(decreases_to!(*self => self->Multiple_icons));
                        assert(self->Multiple_icons == *icons);
                        assert(decreases_to!(*self => icons@[i as int]));
                        assert(iv_ok(icon_view(icons@[i as int]), t));
                    }
                    let piece = icons[i].to_string(table);
                    acc.append(piece.as_str());
                    proof {
                        assert(icons@.take(i + 1).drop_last() =~= icons@.take(i as int));
                        assert(icons@.take(i + 1).last() == icons@[i as int]);
                        let x = icon_views(icons@.take(i as int));
                        let y = icon_view(icons@[i as int]);
                        assert(icon_views(icons@.take(i + 1)) == x.push(y));
                        assert(x.push(y).drop_last() =~= x);
                        assert(x.push(y).last() == y);
                        assert(ivs_text(x.push(y), t) == ivs_text(x, t) + iv_text(y, t));
                    }
                    i = i + 1;
                }
                assert(icons@.take(n as int) =~= icons@);
                acc
            },
        }
    }
}

/// The floor under every polling delay, in microseconds.
pub const MIN_INTERVAL_MICROS: u64 = 1;

/// The resolution of the random jitter scale: a draw ranges over
/// `[-JITTER_RESOLUTION, JITTER_RESOLUTION]` and stands for `[-1, 1]`.
pub const JITTER_RESOLUTION: i64 = 1_000_000;

/// How the device poller's delay between two polls is chosen.
///
/// Intervals are in microseconds; a ratio variance is in parts per million
/// of the interval (values above one million count as one million).
#[derive(Debug, Clone, Copy, PartialEq, Eq, Structural)]
pub enum PollingRate {
    Constant { interval: u64 },
    VariedByRatio { interval: u64, variance: u32 },
    VariedByDuration { interval: u64, variance: u64 },
}

/// Relies on `rand::random`: an arbitrary value of the type; nothing is
/// promised of its distribution.
pub assume_specification<T>[ rand::random::<T> ]() -> (r: T)
    where
        rand::distributions::Standard: rand::distributions::Distribution<T>,
;

/// A ratio variance clamped to at most one (one million parts per million).
pub open spec fn clamped_ppm(variance: u32) -> int {
    if variance > 1_000_000 {
        1_000_000
    } else {
        variance as int
    }
}

/// The magnitude of `j`.
pub open spec fn abs_jitter(j: i64) -> int {
    if j < 0 {
        -(j as int)
    } else {
        j as int
    }
}

/// By how many microseconds a ratio-varied delay departs from its base
/// interval, for a draw of magnitude `j`.
pub open spec fn ratio_magnitude(interval: u64, variance: u32, j: i64) -> int {
    (interval * clamped_ppm(variance) * abs_jitter(j)) / 1_000_000_000_000
}

/// By how many microseconds a duration-varied delay departs from its base
/// interval, for a draw of magnitude `j`.
pub open spec fn duration_magnitude(variance: u64, j: i64) -> int {
    (variance * abs_jitter(j)) / 1_000_000
}

/// `x` floored at the minimal delay and saturated at the largest
/// representable one.
pub open spec fn floored_saturated(x: int) -> int {
    if x < MIN_INTERVAL_MICROS {
        MIN_INTERVAL_MICROS as int
    } else if x > u64::MAX {
        u64::MAX as int
    } else {
        x
    }
}

impl PollingRate {
    /// The delay this policy yields for the signed jitter draw `jitter`.
    pub open spec fn to_duration_spec(self, jitter: i64) -> int {
        match self {
            PollingRate::Constant { interval } => floored_saturated(interval as int),
            PollingRate::VariedByRatio { interval, variance } => floored_saturated(
                interval + if jitter >= 0 {
                    ratio_magnitude(interval, variance, jitter)
                } else {
                    -ratio_magnitude(interval, variance, jitter)
                },
            ),
            PollingRate::VariedByDuration { interval, variance } => floored_saturated(
                interval + if jitter >= 0 {
                    duration_magnitude(variance, jitter)
                } else {
                    -duration_magnitude(variance, jitter)
                },
            ),
        }
    }

    /// Turns the policy into one concrete delay in microseconds, for the
    /// jitter draw `jitter` standing for a factor in `[-1, 1]`.
    ///
    /// Every delay is floored at `MIN_INTERVAL_MICROS`; a ratio-varied delay
    /// moreover always lies within the variance band around its base
    /// interval.
    pub fn to_duration(&self, jitter: i64) -> (r: u64)
        requires
            -1_000_000 <= jitter <= 1_000_000,
        ensures
            r == self.to_duration_spec(jitter),
            r >= MIN_INTERVAL_MICROS,
            self matches PollingRate::VariedByRatio { interval, variance } ==> *interval - ((
            *interval) * clamped_ppm(*variance)) / 1_000_000 <= r as int,
            self matches PollingRate::VariedByRatio { interval, variance } ==> (r as int <= *interval
                + ((*interval) * clamped_ppm(*variance)) / 1_000_000 || r == MIN_INTERVAL_MICROS),
    {
        let jmag: u64 = if jitter < 0 {
            (-jitter) as u64
        } else {
            jitter as u64
        };
        match *self {
            PollingRate::Constant { interval } => {
                if interval < MIN_INTERVAL_MICROS {
                    MIN_INTERVAL_MICROS
                } else {
                    interval
                }
            },
            PollingRate::VariedByRatio { interval, variance } => {
                let v: u32 = if variance > 1_000_000 {
                    1_000_000
                } else {
                    variance
                };
                proof {
                    let iv = interval as int;
                    let vv = v as int;
                    let jm = jmag as int;
                    assert(iv * vv <= u64::MAX * 1_000_000int) by (nonlinear_arith)
                        requires
                            0 <= iv <= u64::MAX,
                            0 <= vv <= 1_000_000,
                    ;
                    assert(iv * vv * jm <= u64::MAX * 1_000_000int * 1_000_000int)
                        by (nonlinear_arith)
                        requires
                            0 <= iv * vv <= u64::MAX * 1_000_000int,
                            0 <= jm <= 1_000_000,
                    ;
                    assert(0 <= iv * vv * jm) by (nonlinear_arith)
                        requires
                            0 <= iv * vv,
                            0 <= jm,
                    ;
                }
                let mag128: u128 = (interval as u128) * (v as u128) * (jmag as u128)
                    / 1_000_000_000_000;
                proof {
                    lemma_ratio_magnitude_bounds(interval, variance, jitter);
                }
                let mag: u64 = mag128 as u64;
                if jitter >= 0 {
                    let sum: u128 = (interval as u128) + (mag as u128);
                    let res: u64 = if sum > u64::MAX as u128 {
                        u64::MAX
                    } else {
                        sum as u64
                    };
                    if res < MIN_INTERVAL_MICROS {
                        MIN_INTERVAL_MICROS
                    } else {
                        res
                    }
                } else {
                    let res: u64 = interval - mag;
                    if res < MIN_INTERVAL_MICROS {
                        MIN_INTERVAL_MICROS
                    } else {
                        res
                    }
                }
            },
            PollingRate::VariedByDuration { interval, variance } => {
                proof {
                    assert((variance as int) * (jmag as int) <= u64::MAX * 1_000_000int)
                        by (nonlinear_arith)
                        requires
                            0 <= variance <= u64::MAX,
                            0 <= jmag <= 1_000_000,
                    ;
                    assert(0 <= (variance as int) * (jmag as int)) by (nonlinear_arith)
                        requires
                            0 <= variance,
                            0 <= jmag,
                    ;
                }
                let mag128: u128 = (variance as u128) * (jmag as u128) / 1_000_000;
                if jitter >= 0 {
                    let sum: u128 = (interval as u128) + mag128;
                    let res: u64 = if sum > u64::MAX as u128 {
                        u64::MAX
                    } else {
                        sum as u64
                    };
                    if res < MIN_INTERVAL_MICROS {
                        MIN_INTERVAL_MICROS
                    } else {
                        res
                    }
                } else {
                    let res: u64 = if mag128 >= interval as u128 {
                        0
                    } else {
                        interval - (mag128 as u64)
                    };
                    if res < MIN_INTERVAL_MICROS {
                        MIN_INTERVAL_MICROS
                    } else {
                        res
                    }
                }
            },
        }
    }

    /// Draws a fresh jitter and turns the policy into one concrete delay.
    pub fn sample(&self) -> (r: u64)
        ensures
            r >= MIN_INTERVAL_MICROS,
            self matches PollingRate::VariedByRatio { interval, variance } ==> *interval - ((
            *interval) * clamped_ppm(*variance)) / 1_000_000 <= r as int,
            self matches PollingRate::VariedByRatio { interval, variance } ==> (r as int <= *interval
                + ((*interval) * clamped_ppm(*variance)) / 1_000_000 || r == MIN_INTERVAL_MICROS),
    {
        let raw: u32 = rand::random();
        let jitter: i64 = (raw % 2_000_001) as i64 - 1_000_000;
        self.to_duration(jitter)
    }
}

/// The jitter departure never exceeds the variance band's half-width
/// `interval * variance`.
proof fn lemma_ratio_magnitude_bounds(interval: u64, variance: u32, jitter: i64)
    requires
        -1_000_000 <= jitter <= 1_000_000,
    ensures
        0 <= ratio_magnitude(interval, variance, jitter) <= (interval * clamped_ppm(variance))
            / 1_000_000,
        ratio_magnitude(interval, variance, jitter) <= interval,
{
    let a: int = (interval as int) * clamped_ppm(variance);
    let j: int = abs_jitter(jitter);
    assert(0 <= a) by (nonlinear_arith)
        requires
            0 <= interval,
            0 <= clamped_ppm(variance),
            a == (interval as int) * clamped_ppm(variance),
    ;
    assert(a * j <= a * 1_000_000) by (nonlinear_arith)
        requires
            0 <= a,
            0 <= j <= 1_000_000,
    ;
    lemma_div_is_ordered(a * j, a * 1_000_000, 1_000_000_000_000);
    assert(a * 1_000_000 / 1_000_000_000_000 == a / 1_000_000) by {
        lemma_div_multiples_vanish_quotient(1_000_000, a, 1_000_000);
        assert(1_000_000int * a / (1_000_000int * 1_000_000int) == a / 1_000_000int);
        assert(a * 1_000_000 == 1_000_000 * a) by (nonlinear_arith);
    }
    assert(0 <= a * j) by (nonlinear_arith)
        requires
            0 <= a,
            0 <= j,
    ;
    assert(a * j >= 0 ==> a * j / 1_000_000_000_000 >= 0) by {
        lemma_div_is_ordered(0, a * j, 1_000_000_000_000);
    }
    assert(a / 1_000_000 <= interval) by {
        let iv = interval as int;
        assert(a <= iv * 1_000_000) by (nonlinear_arith)
            requires
                a == iv * clamped_ppm(variance),
                clamped_ppm(variance) <= 1_000_000,
                0 <= iv,
        ;
        lemma_div_is_ordered(a, iv * 1_000_000, 1_000_000);
        lemma_div_multiples_vanish_quotient(1_000_000, iv, 1);
        assert(iv * 1_000_000 == 1_000_000 * iv) by (nonlinear_arith);
        assert(1_000_000int * iv / (1_000_000int * 1int) == iv / 1int);
    }
}


/// Relies on `wildflower::Pattern` (`new` followed by `matches`): whether
/// the wildcard pattern matches the text is a function of the two strings
/// alone.
pub uninterp spec fn pattern_matches(pattern: Seq<char>, text: Seq<char>) -> bool;

/// Relies on `wildflower::Pattern::new` and `Pattern::matches` to test a
/// wildcard pattern against a string.
#[verifier::external_body]
fn wildcard_match(pattern: &str, text: &str) -> (r: bool)
    ensures
        r == pattern_matches(pattern@, text@),
{
    wildflower::Pattern::new(pattern).matches(text)
}

/// Style settings of the bar.
#[derive(Debug)]
pub struct Theme {
    pub font_family: String,
    /// Font size in px.
    pub font_size_px: u16,
    pub outer_padding: String,
    pub background: String,
}

/// Animation settings of one monitor.
#[derive(Debug, Clone, Copy, PartialEq, Eq, Structural)]
pub struct Animations {
    pub enable: bool,
    pub target_fps: u32,
}

/// Per-monitor settings.
#[derive(Debug, Clone, Copy, PartialEq, Eq, Structural)]
pub struct Monitor {
    pub animations: Animations,
}

/// Which components go where on the bar.
#[derive(Debug)]
pub struct Layout {
    pub left: Vec<String>,
    pub center: Vec<String>,
    pub right: Vec<String>,
}

/// Settings of the state providers.
#[derive(Debug)]
pub struct Providers {
    pub wayland: Wayland,
    pub openrazer: OpenRazer,
}

/// Settings of the compositor provider.
#[derive(Debug)]
pub struct Wayland {
    pub compositor: String,
}

/// Settings of the device bus poller.
#[derive(Debug)]
pub struct OpenRazer {
    pub polling_rate: PollingRate,
}

/// One configured component instance, tagged by component type.
#[derive(Debug)]
pub enum ConfigComponent {
    Power { init: PowerInit },
    Time { init: TimeInit },
    Volume { init: VolumeInit },
    Workspaces { init: WorkspacesInit },
    RazerMouse { init: RazerMouseInit },
}

/// The bar's configuration.
///
/// `monitors` maps a monitor's connector (wildcards accepted) to its
/// settings; `components` maps instance names to component settings; both
/// keep their entries in insertion order.
#[derive(Debug)]
pub struct Config {
    pub monitors: Vec<(String, Monitor)>,
    pub theme: Theme,
    pub layout: Layout,
    pub providers: Providers,
    pub components: Vec<(String, ConfigComponent)>,
}

/// The settings a monitor falls back to.
pub open spec fn default_monitor_spec() -> Monitor {
    Monitor { animations: Animations { enable: true, target_fps: 60 } }
}

/// Returns the settings a monitor falls back to.
pub fn default_monitor() -> (r: Monitor)
    ensures
        r == default_monitor_spec(),
{
    Monitor { animations: Animations { enable: true, target_fps: 60 } }
}

/// What the built-in default configuration holds.
pub open spec fn config_is_default(c: Config) -> bool {
    &&& c.monitors@.len() == 1
    &&& c.monitors@[0].0@ == "*"@
    &&& c.monitors@[0].1 == default_monitor_spec()
    &&& c.theme.font_family@ == "Iosevka"@
    &&& c.theme.font_size_px == 16
    &&& c.theme.outer_padding@ == "20px"@
    &&& c.theme.background@ == "#24273A"@
    &&& c.layout.left@.len() == 1
    &&& c.layout.left@[0]@ == "workspaces"@
    &&& c.layout.center@.len() == 1
    &&& c.layout.center@[0]@ == "time"@
    &&& c.layout.right@.len() == 2
    &&& c.layout.right@[0]@ == "razer_mouse"@
    &&& c.layout.right@[1]@ == "volume"@
    &&& c.providers.wayland.compositor@ == "hyprland"@
    &&& c.providers.openrazer.polling_rate == (PollingRate::VariedByRatio {
        interval: 2_000_000,
        variance: 250_000,
    })
    &&& c.components@.len() == 4
    &&& c.components@[0].0@ == "workspaces"@
    &&& c.components@[0].1 is Workspaces
    &&& c.components@[1].0@ == "time"@
    &&& (match c.components@[1].1 {
        ConfigComponent::Time { init } => {
            &&& icon_view(init.icon) == IconView::Material("schedule"@)
            &&& init.timezone is None
            &&& init.format@ == "%-I:%M<span alpha=\"50%%\">:%S %p</span>"@
        },
        _ => false,
    })
    &&& c.components@[2].0@ == "razer_mouse"@
    &&& (match c.components@[2].1 {
        ConfigComponent::RazerMouse { init } => {
            &&& icon_view(init.icon) == IconView::Material("mouse"@)
            &&& icon_view(init.icon_charging) == IconView::Multiple(
                seq![IconView::Material("mouse"@), IconView::Material("bolt"@)],
            )
        },
        _ => false,
    })
    &&& c.components@[3].0@ == "volume"@
    &&& (match c.components@[3].1 {
        ConfigComponent::Volume { init } => {
            &&& icon_view(init.icon) == IconView::Material("volume_up"@)
            &&& icon_view(init.icon_muted) == IconView::Material("volume_off"@)
        },
        _ => false,
    })
}

impl Default for Config {
    /// The built-in default configuration.
    fn default() -> (r: Self)
        ensures
            config_is_default(r),
    {
        let mut monitors: Vec<(String, Monitor)> = Vec::new();
        monitors.push((String::from_str("*"), default_monitor()));
        let theme = Theme {
            font_family: String::from_str("Iosevka"),
            font_size_px: 16,
            outer_padding: String::from_str("20px"),
            background: String::from_str("#24273A"),
        };
        let mut left: Vec<String> = Vec::new();
        left.push(String::from_str("workspaces"));
        let mut center: Vec<String> = Vec::new();
        center.push(String::from_str("time"));
        let mut right: Vec<String> = Vec::new();
        right.push(String::from_str("razer_mouse"));
        right.push(String::from_str("volume"));
        let layout = Layout { left, center, right };
        let providers = Providers {
            wayland: Wayland { compositor: String::from_str("hyprland") },
            openrazer: OpenRazer {
                polling_rate: PollingRate::VariedByRatio {
                    interval: 2_000_000,
                    variance: 250_000,
                },
            },
        };
        let mut components: Vec<(String, ConfigComponent)> = Vec::new();
        components.push(
            (
                String::from_str("workspaces"),
                ConfigComponent::Workspaces { init: WorkspacesInit {  } },
            ),
        );
        components.push(
            (
                String::from_str("time"),
                ConfigComponent::Time {
                    init: TimeInit {
                        icon: Icon::Material { id: String::from_str("schedule") },
                        timezone: None,
                        format: String::from_str("%-I:%M<span alpha=\"50%%\">:%S %p</span>"),
                    },
                },
            ),
        );
        let mut charging_icons: Vec<Icon> = Vec::new();
        let m1 = Icon::Material { id: String::from_str("mouse") };
        let m2 = Icon::Material { id: String::from_str("bolt") };
        let ghost gm1 = m1;
        let ghost gm2 = m2;
        charging_icons.push(m1);
        charging_icons.push(m2);
        proof {
            assert(charging_icons@ =~= seq![gm1, gm2]);
            assert(icon_view(gm1) == IconView::Material("mouse"@));
            assert(icon_view(gm2) == IconView::Material("bolt"@));
            lemma_icon_views_index(charging_icons@);
            assert(icon_views(charging_icons@)[0] == icon_view(charging_icons@[0]));
            assert(icon_views(charging_icons@)[1] == icon_view(charging_icons@[1]));
            assert(icon_views(charging_icons@) =~= seq![
                IconView::Material("mouse"@),
                IconView::Material("bolt"@),
            ]);
        }
        components.push(
            (
                String::from_str("razer_mouse"),
                ConfigComponent::RazerMouse {
                    init: RazerMouseInit {
                        icon: Icon::Material { id: String::from_str("mouse") },
                        icon_charging: Icon::Multiple { icons: charging_icons },
                    },
                },
            ),
        );
        components.push(
            (
                String::from_str("volume"),
                ConfigComponent::Volume {
                    init: VolumeInit {
                        icon: Icon::Material { id: String::from_str("volume_up") },
                        icon_muted: Icon::Material { id: String::from_str("volume_off") },
                    },
                },
            ),
        );
        Config { monitors, theme, layout, providers, components }
    }
}

/// The SCSS variable block a theme renders to.
pub open spec fn scss_variables_spec(t: Theme) -> Seq<char> {
    "$font_family: "@ + t.font_family@ + ";\n$font_size: "@ + dec_string_of(
        t.font_size_px as nat,
    ) + "px;\n$outer_padding: "@ + t.outer_padding@ + ";\n$background: "@ + t.background@
        + ";"@
}

/// The first monitor entry whose key is exactly `c`.
pub open spec fn find_monitor_entry(ms: Seq<(String, Monitor)>, c: Seq<char>) -> Option<Monitor>
    decreases ms.len(),
{
    if ms.len() == 0 {
        None
    } else if ms[0].0@ == c {
        Some(ms[0].1)
    } else {
        find_monitor_entry(ms.drop_first(), c)
    }
}

/// The first monitor entry whose key pattern matches `c`.
pub open spec fn find_wildcard_entry(ms: Seq<(String, Monitor)>, c: Seq<char>) -> Option<Monitor>
    decreases ms.len(),
{
    if ms.len() == 0 {
        None
    } else if pattern_matches(ms[0].0@, c) {
        Some(ms[0].1)
    } else {
        find_wildcard_entry(ms.drop_first(), c)
    }
}

/// The settings for the monitor with connector `c`: its exact entry, else
/// the first entry whose wildcard pattern matches, else the fallback.
pub open spec fn monitor_for(c: Config, connector: Seq<char>) -> Monitor {
    match find_monitor_entry(c.monitors@, connector) {
        Some(m) => m,
        None => match find_wildcard_entry(c.monitors@, connector) {
            Some(m) => m,
            None => default_monitor_spec(),
        },
    }
}

/// Stepping one entry to the right in an exact-key search.
proof fn lemma_find_monitor_entry_step(ms: Seq<(String, Monitor)>, c: Seq<char>, i: int)
    requires
        0 <= i < ms.len(),
        ms[i].0@ != c,
    ensures
        find_monitor_entry(ms.skip(i), c) == find_monitor_entry(ms.skip(i + 1), c),
{
    assert(ms.skip(i)[0] == ms[i]);
    assert(ms.skip(i).drop_first() =~= ms.skip(i + 1));
}

/// Stepping one entry to the right in a wildcard search.
proof fn lemma_find_wildcard_entry_step(ms: Seq<(String, Monitor)>, c: Seq<char>, i: int)
    requires
        0 <= i < ms.len(),
        !pattern_matches(ms[i].0@, c),
    ensures
        find_wildcard_entry(ms.skip(i), c) == find_wildcard_entry(ms.skip(i + 1), c),
{
    assert(ms.skip(i)[0] == ms[i]);
    assert(ms.skip(i).drop_first() =~= ms.skip(i + 1));
}

impl Config {
    /// The SCSS variable block of the theme, one `$name: value;` line per
    /// setting.
    pub fn scss_variables(&self) -> (r: String)
        ensures
            r@ == scss_variables_spec(self.theme),
    {
        let mut out = String::from_str("$font_family: ");
        out.append(self.theme.font_family.as_str());
        out.append(";\n$font_size: ");
        let size = u32_to_decimal(self.theme.font_size_px as u32);
        out.append(size.as_str());
        out.append("px;\n$outer_padding: ");
        out.append(self.theme.outer_padding.as_str());
        out.append(";\n$background: ");
        out.append(self.theme.background.as_str());
        out.append(";");
        out
    }

    /// The settings for the monitor with connector `connector`: the exact
    /// entry when one exists, else the first entry whose wildcard pattern
    /// matches, else the fallback settings.
    pub fn monitor(&self, connector: &str) -> (r: Monitor)
        ensures
            r == monitor_for(*self, connector@),
    {
        let n = self.monitors.len();
        assert(self.monitors@.skip(0) =~= self.monitors@);
        let mut i: usize = 0;
        while i < n
            invariant
                0 <= i <= n,
                n == self.monitors@.len(),
                find_monitor_entry(self.monitors@, connector@) == find_monitor_entry(
                    self.monitors@.skip(i as int),
                    connector@,
                ),
            decreases n - i,
        {
            if str_eq(self.monitors[i].0.as_str(), connector) {
                assert(self.monitors@.skip(i as int)[0] == self.monitors@[i as int]);
                return self.monitors[i].1;
            }
            proof {
                lemma_find_monitor_entry_step(self.monitors@, connector@, i as int);
            }
            i = i + 1;
        }
        assert(self.monitors@.skip(n as int) =~= Seq::<(String, Monitor)>::empty());
        assert(self.monitors@.skip(0) =~= self.monitors@);
        let mut k: usize = 0;
        while k < n
            invariant
                0 <= k <= n,
                n == self.monitors@.len(),
                find_monitor_entry(self.monitors@, connector@) is None,
                find_wildcard_entry(self.monitors@, connector@) == find_wildcard_entry(
                    self.monitors@.skip(k as int),
                    connector@,
                ),
            decreases n - k,
        {
            if wildcard_match(self.monitors[k].0.as_str(), connector) {
                assert(self.monitors@.skip(k as int)[0] == self.monitors@[k as int]);
                return self.monitors[k].1;
            }
            proof {
                lemma_find_wildcard_entry_step(self.monitors@, connector@, k as int);
            }
            k = k + 1;
        }
        assert(self.monitors@.skip(n as int) =~= Seq::<(String, Monitor)>::empty());
        default_monitor()
    }
}

/// The first component entry under the instance name `name`.
pub open spec fn find_component(
    cs: Seq<(String, ConfigComponent)>,
    name: Seq<char>,
) -> Option<int>
    decreases cs.len(),
{
    if cs.len() == 0 {
        None
    } else if cs[0].0@ == name {
        Some(0)
    } else {
        match find_component(cs.drop_first(), name) {
            Some(i) => Some(i + 1),
            None => None,
        }
    }
}

/// `find_component` names the first entry with the name.
proof fn lemma_find_component_at(cs: Seq<(String, ConfigComponent)>, name: Seq<char>, i: int)
    requires
        0 <= i <= cs.len(),
        forall|j: int| 0 <= j < i ==> cs[j].0@ != name,
        i < cs.len() ==> cs[i].0@ == name,
    ensures
        i < cs.len() ==> find_component(cs, name) == Some(i),
        i == cs.len() ==> find_component(cs, name) is None,
    decreases i,
{
    if i > 0 {
        let rest = cs.drop_first();
        assert(forall|j: int| 0 <= j < rest.len() ==> rest[j] == #[trigger] cs[j + 1]);
        lemma_find_component_at(rest, name, i - 1);
    }
}

impl Config {
    /// The configured component under the instance name `name`, when one
    /// exists; the surrounding code skips (and reports) names the layout
    /// mentions without a matching component.
    pub fn component<'a>(&'a self, name: &str) -> (r: Option<&'a ConfigComponent>)
        ensures
            match r {
                Some(c) => (match find_component(self.components@, name@) {
                    Some(i) => 0 <= i < self.components@.len() && *c == self.components@[i].1,
                    None => false,
                }),
                None => find_component(self.components@, name@) is None,
            },
    {
        let n = self.components.len();
        let mut i: usize = 0;
        while i < n
            invariant
                0 <= i <= n,
                n == self.components@.len(),
                forall|j: int| 0 <= j < i ==> (#[trigger] self.components@[j]).0@ != name@,
            decreases n - i,
        {
            if str_eq(self.components[i].0.as_str(), name) {
                proof {
                    lemma_find_component_at(self.components@, name@, i as int);
                }
                return Some(&self.components[i].1);
            }
            i = i + 1;
        }
        proof {
            lemma_find_component_at(self.components@, name@, n as int);
        }
        None
    }
}

/// Builds the configuration the process runs with: the built-in default.
pub fn load() -> (r: Config)
    ensures
        config_is_default(r),
{
    Config::default()
}

} // verus!
