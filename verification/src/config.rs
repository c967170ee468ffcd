//! User configuration: defaults, and the merge of a user's configuration
//! file over the defaults.
//!
//! Floating-point settings (colours, ramp-up times, scale factors) are held
//! as their IEEE-754 bit patterns ([`FloatBits`]); the library only copies
//! and compares them, and compares them the way `f64 != f64` does.
//! Maps keyed by application name are held as vectors of pairs with
//! distinct keys.

use vstd::prelude::*;
use crate::text::{owned, clone_strings, str_eq};

verus! {

// ---------------------------------------------------------------------------
// IEEE-754 values held as bits
// ---------------------------------------------------------------------------

/// An `f64` setting, held as its IEEE-754 bit pattern (`f64::to_bits`).
#[derive(Clone, Copy, Debug)]
pub struct FloatBits {
    pub bits: u64,
}

/// Whether a bit pattern encodes a NaN.
pub open spec fn is_nan_bits(b: u64) -> bool {
    (b & 0x7ff0_0000_0000_0000u64) == 0x7ff0_0000_0000_0000u64 && (b & 0x000f_ffff_ffff_ffffu64)
        != 0
}

/// `f64 == f64` on bit patterns: no NaN is equal to anything, `0.0 == -0.0`,
/// and otherwise equal values have equal bits.
pub open spec fn ieee_eq(a: u64, b: u64) -> bool {
    !is_nan_bits(a) && !is_nan_bits(b) && (a == b || ((a | b) & 0x7fff_ffff_ffff_ffffu64) == 0)
}

impl FloatBits {
    /// `self != other` as `f64` values.
    pub fn differs(&self, other: &FloatBits) -> (r: bool)
        ensures
            r == !ieee_eq(self.bits, other.bits),
    {
        let a = self.bits;
        let b = other.bits;
        let a_nan = (a & 0x7ff0_0000_0000_0000u64) == 0x7ff0_0000_0000_0000u64 && (a
            & 0x000f_ffff_ffff_ffffu64) != 0;
        let b_nan = (b & 0x7ff0_0000_0000_0000u64) == 0x7ff0_0000_0000_0000u64 && (b
            & 0x000f_ffff_ffff_ffffu64) != 0;
        !(!a_nan && !b_nan && (a == b || ((a | b) & 0x7fff_ffff_ffff_ffffu64) == 0))
    }
}

/// The value chosen by a merge: the user's when it differs, else the default.
pub open spec fn pick<T>(user_differs: bool, user: T, default: T) -> T {
    if user_differs {
        user
    } else {
        default
    }
}

/// The float chosen by a merge (`if user != default { user } else { default }`).
pub open spec fn pick_float(user: FloatBits, default: FloatBits) -> FloatBits {
    pick(!ieee_eq(user.bits, default.bits), user, default)
}

/// Whether no two rules share an application name.
pub open spec fn names_distinct<R>(rules: Seq<(Seq<char>, R)>) -> bool {
    forall|i: int, j: int| 0 <= i < j < rules.len() ==> rules[i].0 != rules[j].0
}

/// Views of a vector of strings.
pub open spec fn strings_view(v: Seq<String>) -> Seq<Seq<char>> {
    v.map_values(|s: String| s@)
}

// ---------------------------------------------------------------------------
// Configuration types and their models
// ---------------------------------------------------------------------------

/// Appearance of the hint labels.
#[derive(Debug)]
pub struct HintsConfig {
    pub hint_height: u32,
    pub hint_width_padding: u32,
    pub hint_font_size: u32,
    pub hint_font_face: String,
    pub hint_font_r: FloatBits,
    pub hint_font_g: FloatBits,
    pub hint_font_b: FloatBits,
    pub hint_font_a: FloatBits,
    pub hint_pressed_font_r: FloatBits,
    pub hint_pressed_font_g: FloatBits,
    pub hint_pressed_font_b: FloatBits,
    pub hint_pressed_font_a: FloatBits,
    pub hint_upercase: bool,
    pub hint_background_r: FloatBits,
    pub hint_background_g: FloatBits,
    pub hint_background_b: FloatBits,
    pub hint_background_a: FloatBits,
}

/// Model of [`HintsConfig`].
pub struct HintsModel {
    pub hint_height: u32,
    pub hint_width_padding: u32,
    pub hint_font_size: u32,
    pub hint_font_face: Seq<char>,
    pub hint_font_r: FloatBits,
    pub hint_font_g: FloatBits,
    pub hint_font_b: FloatBits,
    pub hint_font_a: FloatBits,
    pub hint_pressed_font_r: FloatBits,
    pub hint_pressed_font_g: FloatBits,
    pub hint_pressed_font_b: FloatBits,
    pub hint_pressed_font_a: FloatBits,
    pub hint_upercase: bool,
    pub hint_background_r: FloatBits,
    pub hint_background_g: FloatBits,
    pub hint_background_b: FloatBits,
    pub hint_background_a: FloatBits,
}

impl View for HintsConfig {
    type V = HintsModel;

    open spec fn view(&self) -> HintsModel {
        HintsModel {
            hint_height: self.hint_height,
            hint_width_padding: self.hint_width_padding,
            hint_font_size: self.hint_font_size,
            hint_font_face: self.hint_font_face@,
            hint_font_r: self.hint_font_r,
            hint_font_g: self.hint_font_g,
            hint_font_b: self.hint_font_b,
            hint_font_a: self.hint_font_a,
            hint_pressed_font_r: self.hint_pressed_font_r,
            hint_pressed_font_g: self.hint_pressed_font_g,
            hint_pressed_font_b: self.hint_pressed_font_b,
            hint_pressed_font_a: self.hint_pressed_font_a,
            hint_upercase: self.hint_upercase,
            hint_background_r: self.hint_background_r,
            hint_background_g: self.hint_background_g,
            hint_background_b: self.hint_background_b,
            hint_background_a: self.hint_background_a,
        }
    }
}

/// Accessibility-tree filtering rule for one application.
#[derive(Debug)]
pub struct ApplicationRule {
    pub scale_factor: FloatBits,
    pub states: Vec<String>,
    pub states_match_type: String,
    /// Attribute name/value pairs.
    pub attributes: Vec<(String, String)>,
    pub attributes_match_type: String,
    pub roles: Vec<String>,
    pub roles_match_type: String,
}

/// Model of [`ApplicationRule`].
pub struct ApplicationRuleModel {
    pub scale_factor: FloatBits,
    pub states: Seq<Seq<char>>,
    pub states_match_type: Seq<char>,
    pub attributes: Seq<(Seq<char>, Seq<char>)>,
    pub attributes_match_type: Seq<char>,
    pub roles: Seq<Seq<char>>,
    pub roles_match_type: Seq<char>,
}

/// Views of attribute pairs.
pub open spec fn pairs_view(v: Seq<(String, String)>) -> Seq<(Seq<char>, Seq<char>)> {
    v.map_values(|p: (String, String)| (p.0@, p.1@))
}

impl View for ApplicationRule {
    type V = ApplicationRuleModel;

    open spec fn view(&self) -> ApplicationRuleModel {
        ApplicationRuleModel {
            scale_factor: self.scale_factor,
            states: strings_view(self.states@),
            states_match_type: self.states_match_type@,
            attributes: pairs_view(self.attributes@),
            attributes_match_type: self.attributes_match_type@,
            roles: strings_view(self.roles@),
            roles_match_type: self.roles_match_type@,
        }
    }
}

/// Edge-detection parameters for one application.
#[derive(Clone, Copy, Debug)]
pub struct OpenCvApplicationRule {
    pub kernel_size: u32,
    pub canny_min_val: u32,
    pub canny_max_val: u32,
}

/// Per-application accessibility rules, keyed by application name.
#[derive(Debug)]
pub struct AtspiConfig {
    /// Application name and rule; a loaded configuration has distinct
    /// names (see [`names_distinct`]).
    pub application_rules: Vec<(String, ApplicationRule)>,
}

/// Per-application edge-detection rules, keyed by application name.
#[derive(Debug)]
pub struct OpenCvConfig {
    /// Application name and rule; a loaded configuration has distinct
    /// names (see [`names_distinct`]).
    pub application_rules: Vec<(String, OpenCvApplicationRule)>,
}

/// Which hint backends run, and their settings.
#[derive(Debug)]
pub struct BackendsConfig {
    pub enable: Vec<String>,
    pub atspi: AtspiConfig,
    pub opencv: OpenCvConfig,
}

/// Model of [`BackendsConfig`].
pub struct BackendsModel {
    pub enable: Seq<Seq<char>>,
    pub atspi_rules: Seq<(Seq<char>, ApplicationRuleModel)>,
    pub opencv_rules: Seq<(Seq<char>, OpenCvApplicationRule)>,
}

/// Views of the accessibility rules.
pub open spec fn atspi_rules_view(v: Seq<(String, ApplicationRule)>) -> Seq<
    (Seq<char>, ApplicationRuleModel),
> {
    v.map_values(|p: (String, ApplicationRule)| (p.0@, p.1@))
}

/// Views of the edge-detection rules.
pub open spec fn opencv_rules_view(v: Seq<(String, OpenCvApplicationRule)>) -> Seq<
    (Seq<char>, OpenCvApplicationRule),
> {
    v.map_values(|p: (String, OpenCvApplicationRule)| (p.0@, p.1))
}

impl View for BackendsConfig {
    type V = BackendsModel;

    open spec fn view(&self) -> BackendsModel {
        BackendsModel {
            enable: strings_view(self.enable@),
            atspi_rules: atspi_rules_view(self.atspi.application_rules@),
            opencv_rules: opencv_rules_view(self.opencv.application_rules@),
        }
    }
}

/// The whole configuration.
#[derive(Debug)]
pub struct Config {
    pub hints: HintsConfig,
    pub backends: BackendsConfig,
    pub alphabet: String,
    pub mouse_move_left: String,
    pub mouse_move_right: String,
    pub mouse_move_up: String,
    pub mouse_move_down: String,
    pub mouse_scroll_left: String,
    pub mouse_scroll_right: String,
    pub mouse_scroll_up: String,
    pub mouse_scroll_down: String,
    pub mouse_move_pixel: u32,
    pub mouse_move_pixel_sensitivity: u32,
    pub mouse_move_rampup_time: FloatBits,
    pub mouse_scroll_pixel: u32,
    pub mouse_scroll_pixel_sensitivity: u32,
    pub mouse_scroll_rampup_time: FloatBits,
    pub exit_key: u32,
    pub hover_modifier: u32,
    pub grab_modifier: u32,
    pub overlay_x_offset: i32,
    pub overlay_y_offset: i32,
    pub window_system: String,
}

/// Model of [`Config`].
pub struct ConfigModel {
    pub hints: HintsModel,
    pub backends: BackendsModel,
    pub alphabet: Seq<char>,
    pub mouse_move_left: Seq<char>,
    pub mouse_move_right: Seq<char>,
    pub mouse_move_up: Seq<char>,
    pub mouse_move_down: Seq<char>,
    pub mouse_scroll_left: Seq<char>,
    pub mouse_scroll_right: Seq<char>,
    pub mouse_scroll_up: Seq<char>,
    pub mouse_scroll_down: Seq<char>,
    pub mouse_move_pixel: u32,
    pub mouse_move_pixel_sensitivity: u32,
    pub mouse_move_rampup_time: FloatBits,
    pub mouse_scroll_pixel: u32,
    pub mouse_scroll_pixel_sensitivity: u32,
    pub mouse_scroll_rampup_time: FloatBits,
    pub exit_key: u32,
    pub hover_modifier: u32,
    pub grab_modifier: u32,
    pub overlay_x_offset: i32,
    pub overlay_y_offset: i32,
    pub window_system: Seq<char>,
}

impl View for Config {
    type V = ConfigModel;

    open spec fn view(&self) -> ConfigModel {
        ConfigModel {
            hints: self.hints@,
            backends: self.backends@,
            alphabet: self.alphabet@,
            mouse_move_left: self.mouse_move_left@,
            mouse_move_right: self.mouse_move_right@,
            mouse_move_up: self.mouse_move_up@,
            mouse_move_down: self.mouse_move_down@,
            mouse_scroll_left: self.mouse_scroll_left@,
            mouse_scroll_right: self.mouse_scroll_right@,
            mouse_scroll_up: self.mouse_scroll_up@,
            mouse_scroll_down: self.mouse_scroll_down@,
            mouse_move_pixel: self.mouse_move_pixel,
            mouse_move_pixel_sensitivity: self.mouse_move_pixel_sensitivity,
            mouse_move_rampup_time: self.mouse_move_rampup_time,
            mouse_scroll_pixel: self.mouse_scroll_pixel,
            mouse_scroll_pixel_sensitivity: self.mouse_scroll_pixel_sensitivity,
            mouse_scroll_rampup_time: self.mouse_scroll_rampup_time,
            exit_key: self.exit_key,
            hover_modifier: self.hover_modifier,
            grab_modifier: self.grab_modifier,
            overlay_x_offset: self.overlay_x_offset,
            overlay_y_offset: self.overlay_y_offset,
            window_system: self.window_system@,
        }
    }
}

// ---------------------------------------------------------------------------
// Defaults
// ---------------------------------------------------------------------------

/// Bits of `0.0`.
pub open spec fn zero_bits() -> u64 {
    0u64
}

/// Bits of `0.4`.
pub open spec fn point_four_bits() -> u64 {
    0x3fd9_9999_9999_999au64
}

/// Bits of `0.5`.
pub open spec fn half_bits() -> u64 {
    0x3fe0_0000_0000_0000u64
}

/// Bits of `0.7`.
pub open spec fn point_seven_bits() -> u64 {
    0x3fe6_6666_6666_6666u64
}

/// Bits of `0.8`.
pub open spec fn point_eight_bits() -> u64 {
    0x3fe9_9999_9999_999au64
}

/// Bits of `1.0`.
pub open spec fn one_bits() -> u64 {
    0x3ff0_0000_0000_0000u64
}

/// Default hint alphabet.
pub fn default_alphabet() -> (r: String)
    ensures
        r@ == "asdfgqwertzxcvbhjklyuiopnm"@,
{
    owned("asdfgqwertzxcvbhjklyuiopnm")
}

/// Default key for moving the mouse left.
pub fn default_mouse_move_left() -> (r: String)
    ensures
        r@ == "h"@,
{
    owned("h")
}

/// Default key for moving the mouse right.
pub fn default_mouse_move_right() -> (r: String)
    ensures
        r@ == "l"@,
{
    owned("l")
}

/// Default key for moving the mouse up.
pub fn default_mouse_move_up() -> (r: String)
    ensures
        r@ == "k"@,
{
    owned("k")
}

/// Default key for moving the mouse down.
pub fn default_mouse_move_down() -> (r: String)
    ensures
        r@ == "j"@,
{
    owned("j")
}

/// Default key for scrolling left.
pub fn default_mouse_scroll_left() -> (r: String)
    ensures
        r@ == "h"@,
{
    owned("h")
}

/// Default key for scrolling right.
pub fn default_mouse_scroll_right() -> (r: String)
    ensures
        r@ == "l"@,
{
    owned("l")
}

/// Default key for scrolling up.
pub fn default_mouse_scroll_up() -> (r: String)
    ensures
        r@ == "k"@,
{
    owned("k")
}

/// Default key for scrolling down.
pub fn default_mouse_scroll_down() -> (r: String)
    ensures
        r@ == "j"@,
{
    owned("j")
}

/// Default pixels per mouse move.
pub fn default_mouse_move_pixel() -> (r: u32)
    ensures
        r == 10,
{
    10
}

/// Default mouse-move sensitivity.
pub fn default_mouse_move_pixel_sensitivity() -> (r: u32)
    ensures
        r == 10,
{
    10
}

/// Default mouse-move ramp-up time (`0.5`).
pub fn default_mouse_move_rampup_time() -> (r: FloatBits)
    ensures
        r.bits == half_bits(),
{
    FloatBits { bits: 0x3fe0_0000_0000_0000u64 }
}

/// Default pixels per scroll step.
pub fn default_mouse_scroll_pixel() -> (r: u32)
    ensures
        r == 5,
{
    5
}

/// Default scroll sensitivity.
pub fn default_mouse_scroll_pixel_sensitivity() -> (r: u32)
    ensures
        r == 5,
{
    5
}

/// Default scroll ramp-up time (`0.5`).
pub fn default_mouse_scroll_rampup_time() -> (r: FloatBits)
    ensures
        r.bits == half_bits(),
{
    FloatBits { bits: 0x3fe0_0000_0000_0000u64 }
}

/// Default hint height.
pub fn default_hint_height() -> (r: u32)
    ensures
        r == 30,
{
    30
}

/// Default horizontal padding around a hint label.
pub fn default_hint_width_padding() -> (r: u32)
    ensures
        r == 10,
{
    10
}

/// Default hint font size.
pub fn default_hint_font_size() -> (r: u32)
    ensures
        r == 15,
{
    15
}

/// Default hint font face.
pub fn default_hint_font_face() -> (r: String)
    ensures
        r@ == "Sans"@,
{
    owned("Sans")
}

/// Default hint font colour channel (`0.0`).
pub fn default_hint_font_color() -> (r: FloatBits)
    ensures
        r.bits == zero_bits(),
{
    FloatBits { bits: 0u64 }
}

/// Default hint font alpha (`1.0`).
pub fn default_hint_font_alpha() -> (r: FloatBits)
    ensures
        r.bits == one_bits(),
{
    FloatBits { bits: 0x3ff0_0000_0000_0000u64 }
}

/// Default red of typed characters (`0.7`).
pub fn default_hint_pressed_font_r() -> (r: FloatBits)
    ensures
        r.bits == point_seven_bits(),
{
    FloatBits { bits: 0x3fe6_6666_6666_6666u64 }
}

/// Default green of typed characters (`0.7`).
pub fn default_hint_pressed_font_g() -> (r: FloatBits)
    ensures
        r.bits == point_seven_bits(),
{
    FloatBits { bits: 0x3fe6_6666_6666_6666u64 }
}

/// Default blue of typed characters (`0.4`).
pub fn default_hint_pressed_font_b() -> (r: FloatBits)
    ensures
        r.bits == point_four_bits(),
{
    FloatBits { bits: 0x3fd9_9999_9999_999au64 }
}

/// Whether hints are drawn in upper case by default.
pub fn default_hint_upercase() -> (r: bool)
    ensures
        r,
{
    true
}

/// Default background red (`1.0`).
pub fn default_hint_background_r() -> (r: FloatBits)
    ensures
        r.bits == one_bits(),
{
    FloatBits { bits: 0x3ff0_0000_0000_0000u64 }
}

/// Default background green (`1.0`).
pub fn default_hint_background_g() -> (r: FloatBits)
    ensures
        r.bits == one_bits(),
{
    FloatBits { bits: 0x3ff0_0000_0000_0000u64 }
}

/// Default background blue (`0.5`).
pub fn default_hint_background_b() -> (r: FloatBits)
    ensures
        r.bits == half_bits(),
{
    FloatBits { bits: 0x3fe0_0000_0000_0000u64 }
}

/// Default background alpha (`0.8`).
pub fn default_hint_background_alpha() -> (r: FloatBits)
    ensures
        r.bits == point_eight_bits(),
{
    FloatBits { bits: 0x3fe9_9999_9999_999au64 }
}

/// Backends enabled when a configuration file names `backends` but not
/// `backends.enable`.
pub fn default_backends_enable() -> (r: Vec<String>)
    ensures
        strings_view(r@) == seq!["atspi"@, "opencv"@],
{
    let mut r: Vec<String> = Vec::new();
    r.push(owned("atspi"));
    r.push(owned("opencv"));
    assert(strings_view(r@) =~= seq!["atspi"@, "opencv"@]);
    r
}

/// Default scale factor of an accessibility rule (`1.0`).
pub fn default_scale_factor() -> (r: FloatBits)
    ensures
        r.bits == one_bits(),
{
    FloatBits { bits: 0x3ff0_0000_0000_0000u64 }
}

/// Default dilation kernel size.
pub fn default_kernel_size() -> (r: u32)
    ensures
        r == 6,
{
    6
}

/// Default lower Canny threshold.
pub fn default_canny_min_val() -> (r: u32)
    ensures
        r == 100,
{
    100
}

/// Default upper Canny threshold.
pub fn default_canny_max_val() -> (r: u32)
    ensures
        r == 200,
{
    200
}

/// Model of the default hint appearance.
pub open spec fn default_hints_model() -> HintsModel {
    HintsModel {
        hint_height: 30,
        hint_width_padding: 10,
        hint_font_size: 15,
        hint_font_face: "Sans"@,
        hint_font_r: FloatBits { bits: zero_bits() },
        hint_font_g: FloatBits { bits: zero_bits() },
        hint_font_b: FloatBits { bits: zero_bits() },
        hint_font_a: FloatBits { bits: one_bits() },
        hint_pressed_font_r: FloatBits { bits: point_seven_bits() },
        hint_pressed_font_g: FloatBits { bits: point_seven_bits() },
        hint_pressed_font_b: FloatBits { bits: point_four_bits() },
        hint_pressed_font_a: FloatBits { bits: one_bits() },
        hint_upercase: true,
        hint_background_r: FloatBits { bits: one_bits() },
        hint_background_g: FloatBits { bits: one_bits() },
        hint_background_b: FloatBits { bits: half_bits() },
        hint_background_a: FloatBits { bits: point_eight_bits() },
    }
}

/// Model of the default configuration: default hints, no backends enabled,
/// no application rules, the default alphabet and keys, zero key codes,
/// offsets and modifiers, and no window-system override.
pub open spec fn default_config_model() -> ConfigModel {
    ConfigModel {
        hints: default_hints_model(),
        backends: BackendsModel {
            enable: Seq::empty(),
            atspi_rules: Seq::empty(),
            opencv_rules: Seq::empty(),
        },
        alphabet: "asdfgqwertzxcvbhjklyuiopnm"@,
        mouse_move_left: "h"@,
        mouse_move_right: "l"@,
        mouse_move_up: "k"@,
        mouse_move_down: "j"@,
        mouse_scroll_left: "h"@,
        mouse_scroll_right: "l"@,
        mouse_scroll_up: "k"@,
        mouse_scroll_down: "j"@,
        mouse_move_pixel: 10,
        mouse_move_pixel_sensitivity: 10,
        mouse_move_rampup_time: FloatBits { bits: half_bits() },
        mouse_scroll_pixel: 5,
        mouse_scroll_pixel_sensitivity: 5,
        mouse_scroll_rampup_time: FloatBits { bits: half_bits() },
        exit_key: 0,
        hover_modifier: 0,
        grab_modifier: 0,
        overlay_x_offset: 0,
        overlay_y_offset: 0,
        window_system: Seq::empty(),
    }
}

impl Default for HintsConfig {
    fn default() -> (r: Self)
        ensures
            r@ == default_hints_model(),
    {
        HintsConfig {
            hint_height: default_hint_height(),
            hint_width_padding: default_hint_width_padding(),
            hint_font_size: default_hint_font_size(),
            hint_font_face: default_hint_font_face(),
            hint_font_r: default_hint_font_color(),
            hint_font_g: default_hint_font_color(),
            hint_font_b: default_hint_font_color(),
            hint_font_a: default_hint_font_alpha(),
            hint_pressed_font_r: default_hint_pressed_font_r(),
            hint_pressed_font_g: default_hint_pressed_font_g(),
            hint_pressed_font_b: default_hint_pressed_font_b(),
            hint_pressed_font_a: default_hint_font_alpha(),
            hint_upercase: default_hint_upercase(),
            hint_background_r: default_hint_background_r(),
            hint_background_g: default_hint_background_g(),
            hint_background_b: default_hint_background_b(),
            hint_background_a: default_hint_background_alpha(),
        }
    }
}

impl Default for AtspiConfig {
    fn default() -> (r: Self)
        ensures
            r.application_rules@.len() == 0,
    {
        AtspiConfig { application_rules: Vec::new() }
    }
}

impl Default for OpenCvConfig {
    fn default() -> (r: Self)
        ensures
            r.application_rules@.len() == 0,
    {
        OpenCvConfig { application_rules: Vec::new() }
    }
}

impl Default for BackendsConfig {
    fn default() -> (r: Self)
        ensures
            r.enable@.len() == 0,
            r.atspi.application_rules@.len() == 0,
            r.opencv.application_rules@.len() == 0,
    {
        BackendsConfig {
            enable: Vec::new(),
            atspi: AtspiConfig::default(),
            opencv: OpenCvConfig::default(),
        }
    }
}

impl Default for ApplicationRule {
    fn default() -> (r: Self)
        ensures
            r.scale_factor.bits == one_bits(),
            r.states@.len() == 0,
            r.states_match_type@ == "all"@,
            r.attributes@.len() == 0,
            r.attributes_match_type@ == "all"@,
            r.roles@.len() == 0,
            r.roles_match_type@ == "none"@,
    {
        ApplicationRule {
            scale_factor: default_scale_factor(),
            states: Vec::new(),
            states_match_type: owned("all"),
            attributes: Vec::new(),
            attributes_match_type: owned("all"),
            roles: Vec::new(),
            roles_match_type: owned("none"),
        }
    }
}

impl Default for OpenCvApplicationRule {
    fn default() -> (r: Self)
        ensures
            r.kernel_size == 6,
            r.canny_min_val == 100,
            r.canny_max_val == 200,
    {
        OpenCvApplicationRule {
            kernel_size: default_kernel_size(),
            canny_min_val: default_canny_min_val(),
            canny_max_val: default_canny_max_val(),
        }
    }
}

impl Default for Config {
    fn default() -> (r: Self)
        ensures
            r@ == default_config_model(),
    {
        let r = Config {
            hints: HintsConfig::default(),
            backends: BackendsConfig::default(),
            alphabet: default_alphabet(),
            mouse_move_left: default_mouse_move_left(),
            mouse_move_right: default_mouse_move_right(),
            mouse_move_up: default_mouse_move_up(),
            mouse_move_down: default_mouse_move_down(),
            mouse_scroll_left: default_mouse_scroll_left(),
            mouse_scroll_right: default_mouse_scroll_right(),
            mouse_scroll_up: default_mouse_scroll_up(),
            mouse_scroll_down: default_mouse_scroll_down(),
            mouse_move_pixel: default_mouse_move_pixel(),
            mouse_move_pixel_sensitivity: default_mouse_move_pixel_sensitivity(),
            mouse_move_rampup_time: default_mouse_move_rampup_time(),
            mouse_scroll_pixel: default_mouse_scroll_pixel(),
            mouse_scroll_pixel_sensitivity: default_mouse_scroll_pixel_sensitivity(),
            mouse_scroll_rampup_time: default_mouse_scroll_rampup_time(),
            exit_key: 0,
            hover_modifier: 0,
            grab_modifier: 0,
            overlay_x_offset: 0,
            overlay_y_offset: 0,
            window_system: String::new(),
        };
        assert(r.backends@.enable =~= Seq::<Seq<char>>::empty());
        assert(r.backends@.atspi_rules =~= Seq::<(Seq<char>, ApplicationRuleModel)>::empty());
        assert(r.backends@.opencv_rules =~= Seq::<(Seq<char>, OpenCvApplicationRule)>::empty());
        r
    }
}

// ---------------------------------------------------------------------------
// Copies
// ---------------------------------------------------------------------------

/// Element-wise equality of two string vectors (`Vec<String> == Vec<String>`).
pub fn strings_equal(a: &Vec<String>, b: &Vec<String>) -> (r: bool)
    ensures
        r == (strings_view(a@) == strings_view(b@)),
{
    if a.len() != b.len() {
        return false;
    }
    let mut i: usize = 0;
    while i < a.len()
        invariant
            a@.len() == b@.len(),
            i <= a@.len(),
            forall|j: int| 0 <= j < i ==> a@[j]@ == b@[j]@,
        decreases a@.len() - i,
    {
        if !str_eq(a[i].as_str(), b[i].as_str()) {
            assert(strings_view(a@)[i as int] != strings_view(b@)[i as int]);
            return false;
        }
        i += 1;
    }
    assert(strings_view(a@) =~= strings_view(b@));
    true
}

/// A copy of attribute pairs.
fn copy_pairs(v: &Vec<(String, String)>) -> (r: Vec<(String, String)>)
    ensures
        pairs_view(r@) == pairs_view(v@),
{
    let mut r: Vec<(String, String)> = Vec::new();
    let mut i: usize = 0;
    while i < v.len()
        invariant
            i <= v@.len(),
            pairs_view(r@) == pairs_view(v@.take(i as int)),
        decreases v@.len() - i,
    {
        let p = (v[i].0.clone(), v[i].1.clone());
        r.push(p);
        assert(pairs_view(v@.take(i + 1)) =~= pairs_view(v@.take(i as int)).push(
            (v@[i as int].0@, v@[i as int].1@),
        ));
        assert(pairs_view(r@) =~= pairs_view(v@.take(i + 1)));
        i += 1;
    }
    assert(v@.take(v@.len() as int) =~= v@);
    r
}

impl ApplicationRule {
    /// A copy of this rule.
    pub fn copy(&self) -> (r: ApplicationRule)
        ensures
            r@ == self@,
    {
        let states = clone_strings(&self.states);
        let roles = clone_strings(&self.roles);
        ApplicationRule {
            scale_factor: self.scale_factor,
            states,
            states_match_type: self.states_match_type.clone(),
            attributes: copy_pairs(&self.attributes),
            attributes_match_type: self.attributes_match_type.clone(),
            roles,
            roles_match_type: self.roles_match_type.clone(),
        }
    }
}

/// A copy of the accessibility rules.
fn copy_atspi_rules(v: &Vec<(String, ApplicationRule)>) -> (r: Vec<(String, ApplicationRule)>)
    ensures
        atspi_rules_view(r@) == atspi_rules_view(v@),
{
    let mut r: Vec<(String, ApplicationRule)> = Vec::new();
    let mut i: usize = 0;
    while i < v.len()
        invariant
            i <= v@.len(),
            atspi_rules_view(r@) == atspi_rules_view(v@.take(i as int)),
        decreases v@.len() - i,
    {
        let p = (v[i].0.clone(), v[i].1.copy());
        r.push(p);
        assert(atspi_rules_view(v@.take(i + 1)) =~= atspi_rules_view(v@.take(i as int)).push(
            (v@[i as int].0@, v@[i as int].1@),
        ));
        assert(atspi_rules_view(r@) =~= atspi_rules_view(v@.take(i + 1)));
        i += 1;
    }
    assert(v@.take(v@.len() as int) =~= v@);
    r
}

/// A copy of the edge-detection rules.
fn copy_opencv_rules(v: &Vec<(String, OpenCvApplicationRule)>) -> (r: Vec<
    (String, OpenCvApplicationRule),
>)
    ensures
        opencv_rules_view(r@) == opencv_rules_view(v@),
{
    let mut r: Vec<(String, OpenCvApplicationRule)> = Vec::new();
    let mut i: usize = 0;
    while i < v.len()
        invariant
            i <= v@.len(),
            opencv_rules_view(r@) == opencv_rules_view(v@.take(i as int)),
        decreases v@.len() - i,
    {
        let p = (v[i].0.clone(), v[i].1);
        r.push(p);
        assert(opencv_rules_view(v@.take(i + 1)) =~= opencv_rules_view(v@.take(i as int)).push(
            (v@[i as int].0@, v@[i as int].1),
        ));
        assert(opencv_rules_view(r@) =~= opencv_rules_view(v@.take(i + 1)));
        i += 1;
    }
    assert(v@.take(v@.len() as int) =~= v@);
    r
}

// ---------------------------------------------------------------------------
// Merging a user configuration over the defaults
// ---------------------------------------------------------------------------

/// Hint appearance after the merge: each setting is the user's where it
/// differs from the default (floats compared as `f64`), else the default.
pub open spec fn merge_hints_model(d: HintsModel, u: HintsModel) -> HintsModel {
    HintsModel {
        hint_height: pick(u.hint_height != d.hint_height, u.hint_height, d.hint_height),
        hint_width_padding: pick(
            u.hint_width_padding != d.hint_width_padding,
            u.hint_width_padding,
            d.hint_width_padding,
        ),
        hint_font_size: pick(u.hint_font_size != d.hint_font_size, u.hint_font_size, d.hint_font_size),
        hint_font_face: pick(u.hint_font_face != d.hint_font_face, u.hint_font_face, d.hint_font_face),
        hint_font_r: pick_float(u.hint_font_r, d.hint_font_r),
        hint_font_g: pick_float(u.hint_font_g, d.hint_font_g),
        hint_font_b: pick_float(u.hint_font_b, d.hint_font_b),
        hint_font_a: pick_float(u.hint_font_a, d.hint_font_a),
        hint_pressed_font_r: pick_float(u.hint_pressed_font_r, d.hint_pressed_font_r),
        hint_pressed_font_g: pick_float(u.hint_pressed_font_g, d.hint_pressed_font_g),
        hint_pressed_font_b: pick_float(u.hint_pressed_font_b, d.hint_pressed_font_b),
        hint_pressed_font_a: pick_float(u.hint_pressed_font_a, d.hint_pressed_font_a),
        hint_upercase: pick(u.hint_upercase != d.hint_upercase, u.hint_upercase, d.hint_upercase),
        hint_background_r: pick_float(u.hint_background_r, d.hint_background_r),
        hint_background_g: pick_float(u.hint_background_g, d.hint_background_g),
        hint_background_b: pick_float(u.hint_background_b, d.hint_background_b),
        hint_background_a: pick_float(u.hint_background_a, d.hint_background_a),
    }
}

/// Backends after the merge: the user's list of enabled backends where it is
/// non-empty and differs from the default; the rules are always the
/// default's.
pub open spec fn merge_backends_model(d: BackendsModel, u: BackendsModel) -> BackendsModel {
    BackendsModel {
        enable: pick(u.enable.len() != 0 && u.enable != d.enable, u.enable, d.enable),
        atspi_rules: d.atspi_rules,
        opencv_rules: d.opencv_rules,
    }
}

/// The whole configuration after the merge. Strings, counts and times are
/// the user's where they differ from the default; key codes, modifiers and
/// offsets are the user's where non-zero; the window system is the user's
/// where non-empty.
pub open spec fn merge_config_model(d: ConfigModel, u: ConfigModel) -> ConfigModel {
    ConfigModel {
        hints: merge_hints_model(d.hints, u.hints),
        backends: merge_backends_model(d.backends, u.backends),
        alphabet: pick(u.alphabet != d.alphabet, u.alphabet, d.alphabet),
        mouse_move_left: pick(u.mouse_move_left != d.mouse_move_left, u.mouse_move_left, d.mouse_move_left),
        mouse_move_right: pick(
            u.mouse_move_right != d.mouse_move_right,
            u.mouse_move_right,
            d.mouse_move_right,
        ),
        mouse_move_up: pick(u.mouse_move_up != d.mouse_move_up, u.mouse_move_up, d.mouse_move_up),
        mouse_move_down: pick(u.mouse_move_down != d.mouse_move_down, u.mouse_move_down, d.mouse_move_down),
        mouse_scroll_left: pick(
            u.mouse_scroll_left != d.mouse_scroll_left,
            u.mouse_scroll_left,
            d.mouse_scroll_left,
        ),
        mouse_scroll_right: pick(
            u.mouse_scroll_right != d.mouse_scroll_right,
            u.mouse_scroll_right,
            d.mouse_scroll_right,
        ),
        mouse_scroll_up: pick(u.mouse_scroll_up != d.mouse_scroll_up, u.mouse_scroll_up, d.mouse_scroll_up),
        mouse_scroll_down: pick(
            u.mouse_scroll_down != d.mouse_scroll_down,
            u.mouse_scroll_down,
            d.mouse_scroll_down,
        ),
        mouse_move_pixel: pick(u.mouse_move_pixel != d.mouse_move_pixel, u.mouse_move_pixel, d.mouse_move_pixel),
        mouse_move_pixel_sensitivity: pick(
            u.mouse_move_pixel_sensitivity != d.mouse_move_pixel_sensitivity,
            u.mouse_move_pixel_sensitivity,
            d.mouse_move_pixel_sensitivity,
        ),
        mouse_move_rampup_time: pick_float(u.mouse_move_rampup_time, d.mouse_move_rampup_time),
        mouse_scroll_pixel: pick(
            u.mouse_scroll_pixel != d.mouse_scroll_pixel,
            u.mouse_scroll_pixel,
            d.mouse_scroll_pixel,
        ),
        mouse_scroll_pixel_sensitivity: pick(
            u.mouse_scroll_pixel_sensitivity != d.mouse_scroll_pixel_sensitivity,
            u.mouse_scroll_pixel_sensitivity,
            d.mouse_scroll_pixel_sensitivity,
        ),
        mouse_scroll_rampup_time: pick_float(u.mouse_scroll_rampup_time, d.mouse_scroll_rampup_time),
        exit_key: pick(u.exit_key != 0, u.exit_key, d.exit_key),
        hover_modifier: pick(u.hover_modifier != 0, u.hover_modifier, d.hover_modifier),
        grab_modifier: pick(u.grab_modifier != 0, u.grab_modifier, d.grab_modifier),
        overlay_x_offset: pick(u.overlay_x_offset != 0, u.overlay_x_offset, d.overlay_x_offset),
        overlay_y_offset: pick(u.overlay_y_offset != 0, u.overlay_y_offset, d.overlay_y_offset),
        window_system: pick(u.window_system.len() != 0, u.window_system, d.window_system),
    }
}

/// The string the merge keeps for one setting.
fn pick_string(user: &String, default: &String) -> (r: String)
    ensures
        r@ == pick(user@ != default@, user@, default@),
{
    if !str_eq(user.as_str(), default.as_str()) {
        user.clone()
    } else {
        default.clone()
    }
}

/// The float the merge keeps for one setting.
fn pick_bits(user: FloatBits, default: FloatBits) -> (r: FloatBits)
    ensures
        r == pick_float(user, default),
{
    if user.differs(&default) {
        user
    } else {
        default
    }
}

/// Merges the user's hint appearance over the defaults.
pub fn merge_hints_config(default_hints: &HintsConfig, user_hints: &HintsConfig) -> (r: HintsConfig)
    ensures
        r@ == merge_hints_model(default_hints@, user_hints@),
{
    let d = default_hints;
    let u = user_hints;
    HintsConfig {
        hint_height: if u.hint_height != d.hint_height {
            u.hint_height
        } else {
            d.hint_height
        },
        hint_width_padding: if u.hint_width_padding != d.hint_width_padding {
            u.hint_width_padding
        } else {
            d.hint_width_padding
        },
        hint_font_size: if u.hint_font_size != d.hint_font_size {
            u.hint_font_size
        } else {
            d.hint_font_size
        },
        hint_font_face: pick_string(&u.hint_font_face, &d.hint_font_face),
        hint_font_r: pick_bits(u.hint_font_r, d.hint_font_r),
        hint_font_g: pick_bits(u.hint_font_g, d.hint_font_g),
        hint_font_b: pick_bits(u.hint_font_b, d.hint_font_b),
        hint_font_a: pick_bits(u.hint_font_a, d.hint_font_a),
        hint_pressed_font_r: pick_bits(u.hint_pressed_font_r, d.hint_pressed_font_r),
        hint_pressed_font_g: pick_bits(u.hint_pressed_font_g, d.hint_pressed_font_g),
        hint_pressed_font_b: pick_bits(u.hint_pressed_font_b, d.hint_pressed_font_b),
        hint_pressed_font_a: pick_bits(u.hint_pressed_font_a, d.hint_pressed_font_a),
        hint_upercase: if u.hint_upercase != d.hint_upercase {
            u.hint_upercase
        } else {
            d.hint_upercase
        },
        hint_background_r: pick_bits(u.hint_background_r, d.hint_background_r),
        hint_background_g: pick_bits(u.hint_background_g, d.hint_background_g),
        hint_background_b: pick_bits(u.hint_background_b, d.hint_background_b),
        hint_background_a: pick_bits(u.hint_background_a, d.hint_background_a),
    }
}

/// Merges the user's backend settings over the defaults: only the list of
/// enabled backends can change.
pub fn merge_backends_config(default_backends: &BackendsConfig, user_backends: &BackendsConfig) -> (r:
    BackendsConfig)
    ensures
        r@ == merge_backends_model(default_backends@, user_backends@),
{
    let enable = if user_backends.enable.len() != 0 && !strings_equal(
        &user_backends.enable,
        &default_backends.enable,
    ) {
        clone_strings(&user_backends.enable)
    } else {
        clone_strings(&default_backends.enable)
    };
    BackendsConfig {
        enable,
        atspi: AtspiConfig {
            application_rules: copy_atspi_rules(&default_backends.atspi.application_rules),
        },
        opencv: OpenCvConfig {
            application_rules: copy_opencv_rules(&default_backends.opencv.application_rules),
        },
    }
}

/// Merges a user configuration over the default one.
pub fn merge_config(default_config: &Config, user_config: &Config) -> (r: Config)
    ensures
        r@ == merge_config_model(default_config@, user_config@),
{
    let d = default_config;
    let u = user_config;
    Config {
        hints: merge_hints_config(&d.hints, &u.hints),
        backends: merge_backends_config(&d.backends, &u.backends),
        alphabet: pick_string(&u.alphabet, &d.alphabet),
        mouse_move_left: pick_string(&u.mouse_move_left, &d.mouse_move_left),
        mouse_move_right: pick_string(&u.mouse_move_right, &d.mouse_move_right),
        mouse_move_up: pick_string(&u.mouse_move_up, &d.mouse_move_up),
        mouse_move_down: pick_string(&u.mouse_move_down, &d.mouse_move_down),
        mouse_scroll_left: pick_string(&u.mouse_scroll_left, &d.mouse_scroll_left),
        mouse_scroll_right: pick_string(&u.mouse_scroll_right, &d.mouse_scroll_right),
        mouse_scroll_up: pick_string(&u.mouse_scroll_up, &d.mouse_scroll_up),
        mouse_scroll_down: pick_string(&u.mouse_scroll_down, &d.mouse_scroll_down),
        mouse_move_pixel: if u.mouse_move_pixel != d.mouse_move_pixel {
            u.mouse_move_pixel
        } else {
            d.mouse_move_pixel
        },
        mouse_move_pixel_sensitivity: if u.mouse_move_pixel_sensitivity
            != d.mouse_move_pixel_sensitivity {
            u.mouse_move_pixel_sensitivity
        } else {
            d.mouse_move_pixel_sensitivity
        },
        mouse_move_rampup_time: pick_bits(u.mouse_move_rampup_time, d.mouse_move_rampup_time),
        mouse_scroll_pixel: if u.mouse_scroll_pixel != d.mouse_scroll_pixel {
            u.mouse_scroll_pixel
        } else {
            d.mouse_scroll_pixel
        },
        mouse_scroll_pixel_sensitivity: if u.mouse_scroll_pixel_sensitivity
            != d.mouse_scroll_pixel_sensitivity {
            u.mouse_scroll_pixel_sensitivity
        } else {
            d.mouse_scroll_pixel_sensitivity
        },
        mouse_scroll_rampup_time: pick_bits(u.mouse_scroll_rampup_time, d.mouse_scroll_rampup_time),
        exit_key: if u.exit_key != 0 {
            u.exit_key
        } else {
            d.exit_key
        },
        hover_modifier: if u.hover_modifier != 0 {
            u.hover_modifier
        } else {
            d.hover_modifier
        },
        grab_modifier: if u.grab_modifier != 0 {
            u.grab_modifier
        } else {
            d.grab_modifier
        },
        overlay_x_offset: if u.overlay_x_offset != 0 {
            u.overlay_x_offset
        } else {
            d.overlay_x_offset
        },
        overlay_y_offset: if u.overlay_y_offset != 0 {
            u.overlay_y_offset
        } else {
            d.overlay_y_offset
        },
        window_system: if !u.window_system.as_str().is_empty() {
            u.window_system.clone()
        } else {
            d.window_system.clone()
        },
    }
}

/// The configuration in effect: the user's configuration merged over the
/// defaults when one was read and parsed, else the defaults.
pub fn load_config_from(user_config: Option<Config>) -> (r: Config)
    ensures
        r@ == match user_config {
            Some(u) => merge_config_model(default_config_model(), u@),
            None => default_config_model(),
        },
        names_distinct(r@.backends.atspi_rules),
        names_distinct(r@.backends.opencv_rules),
{
    match user_config {
        Some(u) => {
            let d = Config::default();
            merge_config(&d, &u)
        },
        None => Config::default(),
    }
}

/// Expands a leading `~` to the home directory: where `path` starts with
/// `~/` and a home directory is known, the `~` is replaced by it.
pub fn expand_path(path: &str, home: Option<&str>) -> (r: String)
    ensures
        r@ == match home {
            Some(h) => if crate::text::starts_with(path@, "~/"@) {
                h@ + path@.skip(1)
            } else {
                path@
            },
            None => path@,
        },
{
    let p = crate::text::chars_of(path);
    let tilde = crate::text::chars_of("~/");
    match home {
        Some(h) => {
            if crate::text::has_prefix(&p, &tilde) {
                proof {
                    reveal_strlit("~/");
                }
                assert(p@.len() >= 2);
                let mut r = owned(h);
                assert(r@ =~= h@ + p@.subrange(1, 1));
                let mut i: usize = 1;
                while i < p.len()
                    invariant
                        1 <= i <= p@.len(),
                        r@ == h@ + p@.subrange(1, i as int),
                    decreases p@.len() - i,
                {
                    crate::text::push_char(&mut r, p[i]);
                    assert(h@ + p@.subrange(1, i + 1) =~= (h@ + p@.subrange(1, i as int)).push(
                        p@[i as int],
                    ));
                    i += 1;
                }
                assert(p@.subrange(1, p@.len() as int) =~= p@.skip(1));
                r
            } else {
                owned(path)
            }
        },
        None => owned(path),
    }
}

// ---------------------------------------------------------------------------
// Laws
// ---------------------------------------------------------------------------

/// Merging any configuration over itself gives it back unchanged.
pub proof fn merge_with_itself_is_identity(c: ConfigModel)
    ensures
        merge_config_model(c, c) == c,
{
    assert(merge_hints_model(c.hints, c.hints) == c.hints);
    assert(merge_backends_model(c.backends, c.backends) == c.backends);
}

/// Merging the same user configuration a second time changes nothing:
/// the merge is idempotent in the configuration it is applied to.
pub proof fn merge_is_idempotent(d: ConfigModel, u: ConfigModel)
    ensures
        merge_config_model(merge_config_model(d, u), u) == merge_config_model(d, u),
{
    let m = merge_config_model(d, u);
    assert(merge_hints_model(m.hints, u.hints) == m.hints);
    assert(merge_backends_model(m.backends, u.backends) == m.backends);
}

proof fn lemma_ieee_eq_symmetric(a: u64, b: u64)
    ensures
        ieee_eq(a, b) == ieee_eq(b, a),
{
    assert((a | b) == (b | a)) by (bit_vector);
}

/// A float kept by the merge is the user's, or equal to it as an `f64`.
pub open spec fn float_from_user(m: FloatBits, u: FloatBits) -> bool {
    m == u || ieee_eq(m.bits, u.bits)
}

/// The user's settings win: every string, count and flag of the result is
/// the user's, every float the user's or equal to it as an `f64` (so `0.0`
/// and `-0.0` keep the default's sign), key codes, modifiers, offsets and
/// the window system are the user's unless unset (zero or empty), the
/// enabled backends the user's unless the user lists none, and the
/// application rules are always the default's.
pub proof fn user_settings_win(d: ConfigModel, u: ConfigModel)
    ensures
        ({
            let m = merge_config_model(d, u);
            &&& m.alphabet == u.alphabet
            &&& m.mouse_move_left == u.mouse_move_left && m.mouse_move_right == u.mouse_move_right
            &&& m.mouse_move_up == u.mouse_move_up && m.mouse_move_down == u.mouse_move_down
            &&& m.mouse_scroll_left == u.mouse_scroll_left && m.mouse_scroll_right
                == u.mouse_scroll_right
            &&& m.mouse_scroll_up == u.mouse_scroll_up && m.mouse_scroll_down == u.mouse_scroll_down
            &&& m.mouse_move_pixel == u.mouse_move_pixel && m.mouse_move_pixel_sensitivity
                == u.mouse_move_pixel_sensitivity
            &&& m.mouse_scroll_pixel == u.mouse_scroll_pixel && m.mouse_scroll_pixel_sensitivity
                == u.mouse_scroll_pixel_sensitivity
            &&& float_from_user(m.mouse_move_rampup_time, u.mouse_move_rampup_time)
            &&& float_from_user(m.mouse_scroll_rampup_time, u.mouse_scroll_rampup_time)
            &&& m.hints.hint_height == u.hints.hint_height && m.hints.hint_width_padding
                == u.hints.hint_width_padding && m.hints.hint_font_size == u.hints.hint_font_size
            &&& m.hints.hint_font_face == u.hints.hint_font_face && m.hints.hint_upercase
                == u.hints.hint_upercase
            &&& float_from_user(m.hints.hint_font_r, u.hints.hint_font_r)
            &&& float_from_user(m.hints.hint_font_g, u.hints.hint_font_g)
            &&& float_from_user(m.hints.hint_font_b, u.hints.hint_font_b)
            &&& float_from_user(m.hints.hint_font_a, u.hints.hint_font_a)
            &&& float_from_user(m.hints.hint_pressed_font_r, u.hints.hint_pressed_font_r)
            &&& float_from_user(m.hints.hint_pressed_font_g, u.hints.hint_pressed_font_g)
            &&& float_from_user(m.hints.hint_pressed_font_b, u.hints.hint_pressed_font_b)
            &&& float_from_user(m.hints.hint_pressed_font_a, u.hints.hint_pressed_font_a)
            &&& float_from_user(m.hints.hint_background_r, u.hints.hint_background_r)
            &&& float_from_user(m.hints.hint_background_g, u.hints.hint_background_g)
            &&& float_from_user(m.hints.hint_background_b, u.hints.hint_background_b)
            &&& float_from_user(m.hints.hint_background_a, u.hints.hint_background_a)
            &&& m.exit_key == (if u.exit_key != 0 { u.exit_key } else { d.exit_key })
            &&& m.hover_modifier == (if u.hover_modifier != 0 { u.hover_modifier } else { d.hover_modifier })
            &&& m.grab_modifier == (if u.grab_modifier != 0 { u.grab_modifier } else { d.grab_modifier })
            &&& m.overlay_x_offset == (if u.overlay_x_offset != 0 { u.overlay_x_offset } else { d.overlay_x_offset })
            &&& m.overlay_y_offset == (if u.overlay_y_offset != 0 { u.overlay_y_offset } else { d.overlay_y_offset })
            &&& m.window_system == (if u.window_system.len() != 0 { u.window_system } else { d.window_system })
            &&& m.backends.enable == (if u.backends.enable.len() != 0 { u.backends.enable } else { d.backends.enable })
            &&& m.backends.atspi_rules == d.backends.atspi_rules
            &&& m.backends.opencv_rules == d.backends.opencv_rules
        }),
{
    assert forall|x: FloatBits, y: FloatBits| #[trigger] pick_float(x, y) == x || ieee_eq(
        pick_float(x, y).bits,
        x.bits,
    ) by {
        lemma_ieee_eq_symmetric(x.bits, y.bits);
    }
}

} // verus!
