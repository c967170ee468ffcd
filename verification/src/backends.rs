//! Hint backends: which ones run, the per-application rules they use, how
//! accessibility rules are decoded and checked, and how edge-detection
//! contours become hintable elements.
//!
//! Talking to the accessibility bus, taking screenshots and running the
//! Canny edge detector are the caller's part; the decisions made around
//! them are here.

use vstd::prelude::*;
use atspi::{Role, State};
use image::GrayImage;
use imageproc::contours::find_contours;
use imageproc::distance_transform::Norm;
use imageproc::morphology::dilate;
use crate::config::{Config, ApplicationRule, OpenCvApplicationRule, FloatBits, strings_view, one_bits, names_distinct};
use crate::config::{pairs_view, atspi_rules_view, opencv_rules_view, ApplicationRuleModel};
use crate::errors::AccessibleChildrenNotFound;
use crate::text::{
    chars_of, trim_chars, trim, ascii_lowercase, ascii_lower, ascii_lower_char, str_eq, concat,
    string_from_chars, eq_ignore_case, eq_ignore_ascii_case, has_substring, contains, split_chars,
    split_pieces, parse_u32_chars, parse_u32, lemma_split_pieces_nonempty,
};
use crate::window_systems::WindowSystemType;

verus! {

// ---------------------------------------------------------------------------
// Resolved rules and backend kinds
// ---------------------------------------------------------------------------

/// A resolved per-application rule feeding both backends.
#[derive(Debug, Clone, Copy)]
pub struct ApplicationRules {
    pub scale_factor: FloatBits,
    pub opencv_kernel_size: u32,
    pub opencv_canny_min_val: u32,
    pub opencv_canny_max_val: u32,
}

impl Default for ApplicationRules {
    fn default() -> (r: Self)
        ensures
            r.scale_factor.bits == one_bits(),
            r.opencv_kernel_size == 6,
            r.opencv_canny_min_val == 100,
            r.opencv_canny_max_val == 200,
    {
        ApplicationRules {
            scale_factor: FloatBits { bits: 0x3ff0_0000_0000_0000u64 },
            opencv_kernel_size: 6,
            opencv_canny_min_val: 100,
            opencv_canny_max_val: 200,
        }
    }
}

/// A hint backend.
#[derive(Debug, Clone, Copy, PartialEq, Eq, Structural)]
pub enum BackendType {
    Atspi,
    OpenCV,
    Yolo,
}

/// The backend a configured name selects, if any.
pub open spec fn backend_for(name: Seq<char>) -> Option<BackendType> {
    if name == "atspi"@ {
        Some(BackendType::Atspi)
    } else if name == "opencv"@ {
        Some(BackendType::OpenCV)
    } else if name == "yolo"@ {
        Some(BackendType::Yolo)
    } else {
        None
    }
}

/// The backends named in order, unknown names skipped.
pub open spec fn backends_for(names: Seq<Seq<char>>) -> Seq<BackendType>
    decreases names.len(),
{
    if names.len() == 0 {
        Seq::empty()
    } else {
        let rest = backends_for(names.drop_last());
        match backend_for(names.last()) {
            Some(b) => rest.push(b),
            None => rest,
        }
    }
}

/// The backends to try, in the order `backends.enable` lists them; names
/// other than `atspi`, `opencv` and `yolo` are skipped.
pub fn get_backends(config: &Config) -> (r: Vec<BackendType>)
    ensures
        r@ == backends_for(strings_view(config.backends.enable@)),
{
    let names = &config.backends.enable;
    let ghost ns = strings_view(names@);
    let mut r: Vec<BackendType> = Vec::new();
    let mut i: usize = 0;
    while i < names.len()
        invariant
            i <= names@.len(),
            ns == strings_view(names@),
            r@ == backends_for(ns.take(i as int)),
        decreases names@.len() - i,
    {
        assert(ns.take(i + 1).drop_last() =~= ns.take(i as int));
        assert(ns.take(i + 1).last() == names@[i as int]@);
        let name = names[i].as_str();
        if str_eq(name, "atspi") {
            r.push(BackendType::Atspi);
        } else if str_eq(name, "opencv") {
            r.push(BackendType::OpenCV);
        } else if str_eq(name, "yolo") {
            r.push(BackendType::Yolo);
        }
        i += 1;
    }
    assert(ns.take(names@.len() as int) =~= ns);
    r
}

// ---------------------------------------------------------------------------
// Rule lookup
// ---------------------------------------------------------------------------

/// The first rule named `app`.
pub open spec fn first_rule<R>(rules: Seq<(Seq<char>, R)>, app: Seq<char>) -> Option<R>
    decreases rules.len(),
{
    if rules.len() == 0 {
        None
    } else if rules[0].0 == app {
        Some(rules[0].1)
    } else {
        first_rule(rules.drop_first(), app)
    }
}

proof fn lemma_first_rule_skip<R>(rules: Seq<(Seq<char>, R)>, app: Seq<char>, i: int)
    requires
        0 <= i <= rules.len(),
        forall|j: int| 0 <= j < i ==> rules[j].0 != app,
    ensures
        first_rule(rules, app) == first_rule(rules.skip(i), app),
    decreases i,
{
    if i > 0 {
        assert(rules.skip(1) =~= rules.drop_first());
        lemma_first_rule_skip(rules.drop_first(), app, i - 1);
        assert(rules.drop_first().skip(i - 1) =~= rules.skip(i));
    } else {
        assert(rules.skip(0) =~= rules);
    }
}

/// Where application names are distinct, the rule found for a name is the
/// one configured under it.
pub proof fn lookup_finds_the_named_rule<R>(rules: Seq<(Seq<char>, R)>, app: Seq<char>, i: int)
    requires
        names_distinct(rules),
        0 <= i < rules.len(),
        rules[i].0 == app,
    ensures
        first_rule(rules, app) == Some(rules[i].1),
{
    lemma_first_rule_skip(rules, app, i);
    assert(rules.skip(i)[0] == rules[i]);
}

/// The accessibility rule configured for the focused application.
pub fn find_atspi_rule<'a>(config: &'a Config, app: &str) -> (r: Option<&'a ApplicationRule>)
    ensures
        match r {
            Some(rule) => first_rule(atspi_rules_view(config.backends.atspi.application_rules@), app@)
                == Some(rule@),
            None => first_rule(atspi_rules_view(config.backends.atspi.application_rules@), app@)
                is None,
        },
{
    let rules = &config.backends.atspi.application_rules;
    let ghost rv = atspi_rules_view(rules@);
    let mut i: usize = 0;
    while i < rules.len()
        invariant
            i <= rules@.len(),
            rv == atspi_rules_view(rules@),
            rules@ == config.backends.atspi.application_rules@,
            forall|j: int| 0 <= j < i ==> rv[j].0 != app@,
        decreases rules@.len() - i,
    {
        if str_eq(rules[i].0.as_str(), app) {
            proof {
                lemma_first_rule_skip(rv, app@, i as int);
                let rest = rv.skip(i as int);
                assert(rest[0] == rv[i as int]);
                assert(rest.len() > 0 && rest[0].0 == app@);
                assert(first_rule(rest, app@) == Some(rest[0].1));
            }
            return Some(&rules[i].1);
        }
        assert(rv[i as int].0 == rules@[i as int].0@);
        i += 1;
    }
    proof {
        lemma_first_rule_skip(rv, app@, i as int);
    }
    None
}

/// The edge-detection rule configured for the focused application.
pub fn find_opencv_rule(config: &Config, app: &str) -> (r: Option<OpenCvApplicationRule>)
    ensures
        r == first_rule(opencv_rules_view(config.backends.opencv.application_rules@), app@),
{
    let rules = &config.backends.opencv.application_rules;
    let ghost rv = opencv_rules_view(rules@);
    let mut i: usize = 0;
    while i < rules.len()
        invariant
            i <= rules@.len(),
            rv == opencv_rules_view(rules@),
            rules@ == config.backends.opencv.application_rules@,
            forall|j: int| 0 <= j < i ==> rv[j].0 != app@,
        decreases rules@.len() - i,
    {
        if str_eq(rules[i].0.as_str(), app) {
            proof {
                lemma_first_rule_skip(rv, app@, i as int);
                let rest = rv.skip(i as int);
                assert(rest[0] == rv[i as int]);
                assert(rest.len() > 0 && rest[0].0 == app@);
                assert(first_rule(rest, app@) == Some(rest[0].1));
            }
            return Some(rules[i].1);
        }
        assert(rv[i as int].0 == rules@[i as int].0@);
        i += 1;
    }
    proof {
        lemma_first_rule_skip(rv, app@, i as int);
    }
    None
}

/// The resolved rules of the accessibility backend: the configured scale
/// factor (`1.0` without a rule) and the default edge-detection settings.
pub fn atspi_application_rules(config: &Config, focused_app: &str) -> (r: ApplicationRules)
    ensures
        r.scale_factor.bits == match first_rule(
            atspi_rules_view(config.backends.atspi.application_rules@),
            focused_app@,
        ) {
            Some(rule) => rule.scale_factor.bits,
            None => one_bits(),
        },
        r.opencv_kernel_size == 6,
        r.opencv_canny_min_val == 100,
        r.opencv_canny_max_val == 200,
{
    let scale = match find_atspi_rule(config, focused_app) {
        Some(rule) => rule.scale_factor,
        None => FloatBits { bits: 0x3ff0_0000_0000_0000u64 },
    };
    ApplicationRules {
        scale_factor: scale,
        opencv_kernel_size: 6,
        opencv_canny_min_val: 100,
        opencv_canny_max_val: 200,
    }
}

/// The resolved rules of the edge-detection backend: the configured kernel
/// size and thresholds (6, 100 and 200 without a rule) and scale `1.0`.
pub fn opencv_application_rules(config: &Config, focused_app: &str) -> (r: ApplicationRules)
    ensures
        r.scale_factor.bits == one_bits(),
        match first_rule(opencv_rules_view(config.backends.opencv.application_rules@), focused_app@) {
            Some(rule) => r.opencv_kernel_size == rule.kernel_size && r.opencv_canny_min_val
                == rule.canny_min_val && r.opencv_canny_max_val == rule.canny_max_val,
            None => r.opencv_kernel_size == 6 && r.opencv_canny_min_val == 100
                && r.opencv_canny_max_val == 200,
        },
{
    let rule = find_opencv_rule(config, focused_app);
    ApplicationRules {
        scale_factor: FloatBits { bits: 0x3ff0_0000_0000_0000u64 },
        opencv_kernel_size: match rule {
            Some(r) => r.kernel_size,
            None => 6,
        },
        opencv_canny_min_val: match rule {
            Some(r) => r.canny_min_val,
            None => 100,
        },
        opencv_canny_max_val: match rule {
            Some(r) => r.canny_max_val,
            None => 200,
        },
    }
}

// ---------------------------------------------------------------------------
// Accessibility rules
// ---------------------------------------------------------------------------

/// How a set of criteria is matched (the accessibility bus's `MatchType`).
#[derive(Debug, Clone, Copy, PartialEq, Eq, Structural)]
pub enum MatchType {
    Invalid,
    All,
    Any,
    NA,
    Empty,
}

/// The match type a configured word names, compared ignoring ASCII case.
pub open spec fn match_type_for(s: Seq<char>) -> MatchType {
    let l = ascii_lower(s);
    if l == "all"@ {
        MatchType::All
    } else if l == "any"@ {
        MatchType::Any
    } else if l == "none"@ || l == "na"@ || l == "n/a"@ {
        MatchType::NA
    } else if l == "empty"@ {
        MatchType::Empty
    } else {
        MatchType::Invalid
    }
}

/// Reads a configured match type: `all`, `any`, `none`/`na`/`n/a` or
/// `empty`, in any ASCII case; anything else is `Invalid`.
pub fn match_type_from_str(s: &str) -> (r: MatchType)
    ensures
        r == match_type_for(s@),
{
    let lower_chars = ascii_lowercase(&chars_of(s));
    let l = string_from_chars(lower_chars.as_slice());
    let ls = l.as_str();
    if str_eq(ls, "all") {
        MatchType::All
    } else if str_eq(ls, "any") {
        MatchType::Any
    } else if str_eq(ls, "none") || str_eq(ls, "na") || str_eq(ls, "n/a") {
        MatchType::NA
    } else if str_eq(ls, "empty") {
        MatchType::Empty
    } else {
        MatchType::Invalid
    }
}

/// The bit `atspi::State::from(name)` stands for in a state set: the state
/// named in kebab case, or the `Invalid` state for any other name.
pub uninterp spec fn atspi_state_bits(name: Seq<char>) -> u64;

/// `atspi::State::from(&str)`, as the state's bit. Trusted: the result is
/// the bit of the state the crate's name table maps the string to, a
/// function of the string alone; which bit each name has is not stated.
#[verifier::external_body]
fn state_bits_from_name(name: &str) -> (r: u64)
    ensures
        r == atspi_state_bits(name@),
{
    State::from(name) as u64
}

/// The bit of `atspi::State::Invalid`. Trusted: `Invalid` is the first
/// variant of the crate's `#[bitflags]` enum, which gives it bit `1 << 0`.
#[verifier::external_body]
fn invalid_state_bits() -> (r: u64)
    ensures
        r == 1,
{
    State::Invalid as u64
}

/// What `atspi::Role::name` gives for the role a code names.
pub uninterp spec fn atspi_role_name(code: u32) -> Seq<char>;

/// `atspi::Role::try_from(u32)`, as whether it succeeds. Trusted: the crate
/// maps exactly the codes `0..130` to roles and rejects every other code.
#[verifier::external_body]
fn is_role_code(code: u32) -> (r: bool)
    ensures
        r == (code < 130),
{
    Role::try_from(code).is_ok()
}

/// `atspi::Role::name` of the role a code names (the code is turned into
/// the role with `Role::try_from`; the crate gives each role the code of
/// its position, so the role's code is the argument). Trusted: the result
/// is the role's readable English name, a function of the code alone.
#[verifier::external_body]
fn role_name_of(code: u32) -> (r: String)
    requires
        code < 130,
    ensures
        r@ == atspi_role_name(code),
{
    Role::try_from(code).unwrap().name().to_string()
}

/// A configured state name normalised to the crate's kebab case: trimmed,
/// ASCII-lowercased, with `_` and spaces turned into `-`.
pub open spec fn normalize_state(s: Seq<char>) -> Seq<char> {
    ascii_lower(trim(s)).map_values(|c: char| if c == '_' || c == ' ' { '-' } else { c })
}

/// A configured role name normalised for comparison: trimmed,
/// ASCII-lowercased, with `_` and `-` turned into spaces.
pub open spec fn normalize_role(s: Seq<char>) -> Seq<char> {
    ascii_lower(trim(s)).map_values(|c: char| if c == '_' || c == '-' { ' ' } else { c })
}

/// Replaces two characters by a third.
fn replace_two(v: &Vec<char>, a: char, b: char, by: char) -> (r: Vec<char>)
    ensures
        r@ == v@.map_values(|c: char| if c == a || c == b { by } else { c }),
{
    let mut r: Vec<char> = Vec::new();
    let mut i: usize = 0;
    while i < v.len()
        invariant
            i <= v@.len(),
            r@ == v@.take(i as int).map_values(|c: char| if c == a || c == b { by } else { c }),
        decreases v@.len() - i,
    {
        let c = v[i];
        r.push(if c == a || c == b { by } else { c });
        assert(v@.take(i + 1).map_values(|c: char| if c == a || c == b { by } else { c }) =~= v@.take(
            i as int,
        ).map_values(|c: char| if c == a || c == b { by } else { c }).push(
            if c == a || c == b { by } else { c },
        ));
        i += 1;
    }
    assert(v@.take(v@.len() as int) =~= v@);
    r
}

/// The name a configured state name is looked up by (see
/// [`normalize_state`]).
pub fn normalize_state_name(s: &str) -> (r: String)
    ensures
        r@ == normalize_state(s@),
{
    let trimmed = trim_chars(&chars_of(s));
    let lower = ascii_lowercase(&trimmed);
    let normalized = replace_two(&lower, '_', ' ', '-');
    string_from_chars(normalized.as_slice())
}

/// The state a looked-up name denotes, given the bit the crate's lookup
/// gave for it: `None` for the `Invalid` state (bit `1`), unless the name
/// is `invalid` itself.
pub open spec fn state_after_lookup(normalized: Seq<char>, bits: u64) -> Option<u64> {
    if bits == 1 && normalized != "invalid"@ {
        None
    } else {
        Some(bits)
    }
}

/// Decides what a looked-up state name denotes (see
/// [`state_after_lookup`]).
pub fn state_from_lookup(normalized: &str, bits: u64) -> (r: Option<u64>)
    ensures
        r == state_after_lookup(normalized@, bits),
{
    if bits == invalid_state_bits() && !str_eq(normalized, "invalid") {
        None
    } else {
        Some(bits)
    }
}

/// The state a configured name denotes, as its bit (see
/// [`state_after_lookup`]).
pub open spec fn state_for(s: Seq<char>) -> Option<u64> {
    state_after_lookup(normalize_state(s), atspi_state_bits(normalize_state(s)))
}

/// Reads a configured state name (see [`state_for`]).
pub fn state_from_config_str(s: &str) -> (r: Option<u64>)
    ensures
        r == state_for(s@),
{
    let normalized = normalize_state_name(s);
    let bits = state_bits_from_name(normalized.as_str());
    state_from_lookup(normalized.as_str(), bits)
}

/// Views of a role table: each entry the role's code and name, if any.
pub open spec fn role_table_view(v: Seq<Option<(u32, String)>>) -> Seq<Option<(u32, Seq<char>)>> {
    v.map_values(
        |e: Option<(u32, String)>|
            match e {
                Some((c, n)) => Some((c, n@)),
                None => None,
            },
    )
}

/// What the crate says of the role codes `0..256`, in order: each code that
/// names a role, with the role's name.
pub open spec fn role_table() -> Seq<Option<(u32, Seq<char>)>> {
    Seq::new(
        256,
        |i: int|
            if i < 130 {
                Some((i as u32, atspi_role_name(i as u32)))
            } else {
                None
            },
    )
}

/// The code of the first role in a table whose name equals `target`
/// ignoring ASCII case.
pub open spec fn first_role_named(table: Seq<Option<(u32, Seq<char>)>>, target: Seq<char>) -> Option<
    u32,
>
    decreases table.len(),
{
    if table.len() == 0 {
        None
    } else {
        match table[0] {
            Some((c, name)) => if eq_ignore_ascii_case(name, target) {
                Some(c)
            } else {
                first_role_named(table.drop_first(), target)
            },
            None => first_role_named(table.drop_first(), target),
        }
    }
}

/// The role a configured name denotes: the first of the role codes `0..256`
/// whose readable name matches the normalised name ignoring ASCII case.
pub open spec fn role_for(s: Seq<char>) -> Option<u32> {
    first_role_named(role_table(), normalize_role(s))
}

/// The name a configured role name is compared by (see
/// [`normalize_role`]).
pub fn normalize_role_name(s: &str) -> (r: String)
    ensures
        r@ == normalize_role(s@),
{
    let trimmed = trim_chars(&chars_of(s));
    let lower = ascii_lowercase(&trimmed);
    let normalized = replace_two(&lower, '_', '-', ' ');
    string_from_chars(normalized.as_slice())
}

proof fn lemma_first_role_skip(table: Seq<Option<(u32, Seq<char>)>>, target: Seq<char>, i: int)
    requires
        0 <= i <= table.len(),
        forall|j: int|
            0 <= j < i ==> (#[trigger] table[j] matches Some((c, name)) ==> !eq_ignore_ascii_case(
                name,
                target,
            )),
    ensures
        first_role_named(table, target) == first_role_named(table.skip(i), target),
    decreases i,
{
    if i > 0 {
        assert(table.skip(1) =~= table.drop_first());
        assert forall|j: int| 0 <= j < i - 1 implies (#[trigger] table.drop_first()[j] matches Some(
            (c, name),
        ) ==> !eq_ignore_ascii_case(name, target)) by {
            assert(table.drop_first()[j] == table[j + 1]);
        }
        lemma_first_role_skip(table.drop_first(), target, i - 1);
        assert(table.drop_first().skip(i - 1) =~= table.skip(i));
    } else {
        assert(table.skip(0) =~= table);
    }
}

/// Finds a role by name in a table of roles (see [`first_role_named`]).
pub fn find_role_named(table: &Vec<Option<(u32, String)>>, target: &str) -> (r: Option<u32>)
    ensures
        r == first_role_named(role_table_view(table@), target@),
{
    let ghost tv = role_table_view(table@);
    let target_chars = chars_of(target);
    let mut i: usize = 0;
    while i < table.len()
        invariant
            i <= table@.len(),
            tv == role_table_view(table@),
            target_chars@ == target@,
            forall|j: int|
                0 <= j < i ==> (#[trigger] tv[j] matches Some((c, name)) ==> !eq_ignore_ascii_case(
                    name,
                    target@,
                )),
        decreases table@.len() - i,
    {
        assert(tv[i as int] == match table@[i as int] {
            Some((c, n)) => Some((c, n@)),
            None => None::<(u32, Seq<char>)>,
        });
        match &table[i] {
            Some((c, name)) => {
                if eq_ignore_case(&chars_of(name.as_str()), &target_chars) {
                    proof {
                        lemma_first_role_skip(tv, target@, i as int);
                        assert(tv.skip(i as int)[0] == tv[i as int]);
                    }
                    return Some(*c);
                }
            },
            None => {},
        }
        i += 1;
    }
    proof {
        lemma_first_role_skip(tv, target@, i as int);
    }
    None
}

/// What the crate says of the role codes `0..256`.
fn role_table_of_crate() -> (r: Vec<Option<(u32, String)>>)
    ensures
        role_table_view(r@) == role_table(),
{
    let mut r: Vec<Option<(u32, String)>> = Vec::new();
    let mut code: u32 = 0;
    while code < 256
        invariant
            code <= 256,
            r@.len() == code,
            forall|j: int| 0 <= j < code ==> #[trigger] role_table_view(r@)[j] == role_table()[j],
        decreases 256 - code,
    {
        let entry = if is_role_code(code) {
            Some((code, role_name_of(code)))
        } else {
            None
        };
        let ghost before = r@;
        r.push(entry);
        assert forall|j: int| 0 <= j < code + 1 implies #[trigger] role_table_view(r@)[j] == role_table()[j] by {
            if j < code {
                assert(r@[j] == before[j]);
                assert(role_table_view(before)[j] == role_table()[j]);
            }
        }
        code += 1;
    }
    assert(role_table_view(r@) =~= role_table());
    r
}

/// Reads a configured role name (see [`role_for`]).
pub fn role_from_config_str(s: &str) -> (r: Option<u32>)
    ensures
        r == role_for(s@),
{
    let target = normalize_role_name(s);
    let table = role_table_of_crate();
    find_role_named(&table, target.as_str())
}

/// The bitwise or of state bits.
pub open spec fn or_all(states: Seq<u64>) -> u64
    decreases states.len(),
{
    if states.len() == 0 {
        0
    } else {
        or_all(states.drop_last()) | states.last()
    }
}

/// A state set as the two 32-bit words (low, high) the bus carries,
/// reinterpreted as `i32`.
pub fn states_to_i32_pair(states: &[u64]) -> (r: [i32; 2])
    ensures
        r@ == seq![or_all(states@) as u32 as i32, (or_all(states@) >> 32u64) as u32 as i32],
{
    let mut bits: u64 = 0;
    let mut i: usize = 0;
    while i < states.len()
        invariant
            i <= states@.len(),
            bits == or_all(states@.take(i as int)),
        decreases states@.len() - i,
    {
        assert(states@.take(i + 1).drop_last() =~= states@.take(i as int));
        bits = bits | states[i];
        i += 1;
    }
    assert(states@.take(states@.len() as int) =~= states@);
    let r = [bits as u32 as i32, (bits >> 32u64) as u32 as i32];
    assert(r@ =~= seq![or_all(states@) as u32 as i32, (or_all(states@) >> 32u64) as u32 as i32]);
    r
}

/// The two words carry the whole state set: putting the high word above
/// the low one gives back the bitwise or of the states.
pub proof fn state_words_carry_the_set(states: Seq<u64>)
    ensures
        ({
            let bits = or_all(states);
            let low = bits as u32 as i32;
            let high = (bits >> 32u64) as u32 as i32;
            ((high as u32 as u64) << 32u64) | (low as u32 as u64) == bits
        }),
{
    let bits = or_all(states);
    assert(((((bits >> 32u64) as u32 as i32) as u32 as u64) << 32u64) | ((bits as u32 as i32) as u32
        as u64) == bits) by (bit_vector);
}

/// The decoded criteria of an accessibility rule.
#[derive(Debug)]
pub struct MatchRule {
    pub scale_factor: FloatBits,
    /// State bits of the recognised state names, in order.
    pub states: Vec<u64>,
    pub states_match_type: MatchType,
    pub attributes: Vec<(String, String)>,
    pub attributes_match_type: MatchType,
    /// Codes of the recognised role names, in order.
    pub roles: Vec<u32>,
    pub roles_match_type: MatchType,
}

/// The states a list of names denotes, unrecognised names dropped.
pub open spec fn states_for(names: Seq<Seq<char>>) -> Seq<u64>
    decreases names.len(),
{
    if names.len() == 0 {
        Seq::empty()
    } else {
        let rest = states_for(names.drop_last());
        match state_for(names.last()) {
            Some(b) => rest.push(b),
            None => rest,
        }
    }
}

/// The roles a list of names denotes, unrecognised names dropped.
pub open spec fn roles_for(names: Seq<Seq<char>>) -> Seq<u32>
    decreases names.len(),
{
    if names.len() == 0 {
        Seq::empty()
    } else {
        let rest = roles_for(names.drop_last());
        match role_for(names.last()) {
            Some(c) => rest.push(c),
            None => rest,
        }
    }
}

fn copy_attribute_pairs(v: &Vec<(String, String)>) -> (r: Vec<(String, String)>)
    ensures
        pairs_view(r@) == pairs_view(v@),
{
    let mut r: Vec<(String, String)> = Vec::new();
    let mut i: usize = 0;
    while i < v.len()
        invariant
            i <= v@.len(),
            pairs_view(r@) == pairs_view(v@.take(i as int)),
        decreases v@.len() - i,
    {
        r.push((v[i].0.clone(), v[i].1.clone()));
        assert(pairs_view(v@.take(i + 1)) =~= pairs_view(v@.take(i as int)).push(
            (v@[i as int].0@, v@[i as int].1@),
        ));
        assert(pairs_view(r@) =~= pairs_view(v@.take(i + 1)));
        i += 1;
    }
    assert(v@.take(v@.len() as int) =~= v@);
    r
}

/// Decodes a configured rule into the criteria sent to the accessibility
/// bus: recognised states and roles in order, and the match types.
pub fn match_rule_from(rule: &ApplicationRule) -> (r: MatchRule)
    ensures
        r.scale_factor == rule.scale_factor,
        r.states@ == states_for(strings_view(rule.states@)),
        r.states_match_type == match_type_for(rule.states_match_type@),
        pairs_view(r.attributes@) == pairs_view(rule.attributes@),
        r.attributes_match_type == match_type_for(rule.attributes_match_type@),
        r.roles@ == roles_for(strings_view(rule.roles@)),
        r.roles_match_type == match_type_for(rule.roles_match_type@),
{
    let ghost sv = strings_view(rule.states@);
    let mut states: Vec<u64> = Vec::new();
    let mut i: usize = 0;
    while i < rule.states.len()
        invariant
            i <= rule.states@.len(),
            sv == strings_view(rule.states@),
            states@ == states_for(sv.take(i as int)),
        decreases rule.states@.len() - i,
    {
        assert(sv.take(i + 1).drop_last() =~= sv.take(i as int));
        assert(sv.take(i + 1).last() == rule.states@[i as int]@);
        match state_from_config_str(rule.states[i].as_str()) {
            Some(b) => states.push(b),
            None => {},
        }
        i += 1;
    }
    assert(sv.take(rule.states@.len() as int) =~= sv);
    let ghost rv = strings_view(rule.roles@);
    let mut roles: Vec<u32> = Vec::new();
    let mut j: usize = 0;
    while j < rule.roles.len()
        invariant
            j <= rule.roles@.len(),
            rv == strings_view(rule.roles@),
            roles@ == roles_for(rv.take(j as int)),
        decreases rule.roles@.len() - j,
    {
        assert(rv.take(j + 1).drop_last() =~= rv.take(j as int));
        assert(rv.take(j + 1).last() == rule.roles@[j as int]@);
        match role_from_config_str(rule.roles[j].as_str()) {
            Some(c) => roles.push(c),
            None => {},
        }
        j += 1;
    }
    assert(rv.take(rule.roles@.len() as int) =~= rv);
    MatchRule {
        scale_factor: rule.scale_factor,
        states,
        states_match_type: match_type_from_str(rule.states_match_type.as_str()),
        attributes: copy_attribute_pairs(&rule.attributes),
        attributes_match_type: match_type_from_str(rule.attributes_match_type.as_str()),
        roles,
        roles_match_type: match_type_from_str(rule.roles_match_type.as_str()),
    }
}

/// Role codes as the bus carries them.
pub fn role_codes(roles: &[u32]) -> (r: Vec<i32>)
    ensures
        r@ == roles@.map_values(|c: u32| c as i32),
{
    let mut r: Vec<i32> = Vec::new();
    let mut i: usize = 0;
    while i < roles.len()
        invariant
            i <= roles@.len(),
            r@ == roles@.take(i as int).map_values(|c: u32| c as i32),
        decreases roles@.len() - i,
    {
        r.push(roles[i] as i32);
        assert(roles@.take(i + 1).map_values(|c: u32| c as i32) =~= roles@.take(i as int).map_values(
            |c: u32| c as i32,
        ).push(roles@[i as int] as i32));
        i += 1;
    }
    assert(roles@.take(roles@.len() as int) =~= roles@);
    r
}

/// Whether a state set contains a state.
pub open spec fn has_state(set: u64, state: u64) -> bool {
    (set & state) == state
}

/// Whether the element's states satisfy the rule. `actual` is the element's
/// state set, `None` when it could not be read; it is not consulted for
/// `Invalid`, which accepts everything.
pub open spec fn states_ok(kind: MatchType, wanted: Seq<u64>, actual: Option<u64>) -> bool {
    match kind {
        MatchType::All | MatchType::Empty => match actual {
            Some(set) => forall|i: int| 0 <= i < wanted.len() ==> has_state(set, #[trigger] wanted[i]),
            None => false,
        },
        MatchType::Any => match actual {
            Some(set) => exists|i: int| 0 <= i < wanted.len() && has_state(set, #[trigger] wanted[i]),
            None => false,
        },
        MatchType::NA => match actual {
            Some(set) => !exists|i: int| 0 <= i < wanted.len() && has_state(set, #[trigger] wanted[i]),
            None => true,
        },
        MatchType::Invalid => true,
    }
}

/// Whether the element's role satisfies the rule. `actual` is the element's
/// role code, `None` when it could not be read; it is not consulted for
/// `Invalid`, which accepts everything.
pub open spec fn roles_ok(kind: MatchType, wanted: Seq<u32>, actual: Option<u32>) -> bool {
    match kind {
        MatchType::All | MatchType::Empty | MatchType::Any => match actual {
            Some(role) => wanted.contains(role),
            None => false,
        },
        MatchType::NA => match actual {
            Some(role) => !wanted.contains(role),
            None => true,
        },
        MatchType::Invalid => true,
    }
}

fn any_state(set: u64, wanted: &[u64]) -> (r: bool)
    ensures
        r == exists|i: int| 0 <= i < wanted@.len() && has_state(set, #[trigger] wanted@[i]),
{
    let mut i: usize = 0;
    while i < wanted.len()
        invariant
            i <= wanted@.len(),
            forall|j: int| 0 <= j < i ==> !has_state(set, #[trigger] wanted@[j]),
        decreases wanted@.len() - i,
    {
        if (set & wanted[i]) == wanted[i] {
            assert(has_state(set, wanted@[i as int]));
            return true;
        }
        i += 1;
    }
    false
}

fn all_states(set: u64, wanted: &[u64]) -> (r: bool)
    ensures
        r == forall|i: int| 0 <= i < wanted@.len() ==> has_state(set, #[trigger] wanted@[i]),
{
    let mut i: usize = 0;
    while i < wanted.len()
        invariant
            i <= wanted@.len(),
            forall|j: int| 0 <= j < i ==> has_state(set, #[trigger] wanted@[j]),
        decreases wanted@.len() - i,
    {
        if (set & wanted[i]) != wanted[i] {
            assert(!has_state(set, wanted@[i as int]));
            return false;
        }
        i += 1;
    }
    true
}

fn contains_role(wanted: &[u32], role: u32) -> (r: bool)
    ensures
        r == wanted@.contains(role),
{
    let mut i: usize = 0;
    while i < wanted.len()
        invariant
            i <= wanted@.len(),
            forall|j: int| 0 <= j < i ==> wanted@[j] != role,
        decreases wanted@.len() - i,
    {
        if wanted[i] == role {
            assert(wanted@[i as int] == role);
            return true;
        }
        i += 1;
    }
    false
}

/// Checks an element's state set against a rule (see [`states_ok`]).
pub fn state_condition(kind: MatchType, wanted: &[u64], actual: Option<u64>) -> (r: bool)
    ensures
        r == states_ok(kind, wanted@, actual),
{
    match kind {
        MatchType::All | MatchType::Empty => match actual {
            Some(set) => all_states(set, wanted),
            None => false,
        },
        MatchType::Any => match actual {
            Some(set) => any_state(set, wanted),
            None => false,
        },
        MatchType::NA => match actual {
            Some(set) => !any_state(set, wanted),
            None => true,
        },
        MatchType::Invalid => true,
    }
}

/// Checks an element's role against a rule (see [`roles_ok`]).
pub fn role_condition(kind: MatchType, wanted: &[u32], actual: Option<u32>) -> (r: bool)
    ensures
        r == roles_ok(kind, wanted@, actual),
{
    match kind {
        MatchType::All | MatchType::Empty | MatchType::Any => match actual {
            Some(role) => contains_role(wanted, role),
            None => false,
        },
        MatchType::NA => match actual {
            Some(role) => !contains_role(wanted, role),
            None => true,
        },
        MatchType::Invalid => true,
    }
}

/// Whether an element matches a rule: its states are checked first and its
/// role only when they pass.
pub fn validate_match(rule: &MatchRule, states: Option<u64>, role: Option<u32>) -> (r: bool)
    ensures
        r == (states_ok(rule.states_match_type, rule.states@, states) && roles_ok(
            rule.roles_match_type,
            rule.roles@,
            role,
        )),
{
    if !state_condition(rule.states_match_type, rule.states.as_slice(), states) {
        return false;
    }
    role_condition(rule.roles_match_type, rule.roles.as_slice(), role)
}

// ---------------------------------------------------------------------------
// Finding the focused accessible window
// ---------------------------------------------------------------------------

/// Whether an application is GNOME's `mutter-x11-frames` helper, which is
/// skipped.
pub fn is_frames_helper(description: &str) -> (r: bool)
    ensures
        r == contains(description@, "mutter-x11-frames"@),
{
    has_substring(&chars_of(description), &chars_of("mutter-x11-frames"))
}

/// Whether a window's state set has the `Active` state.
pub fn window_is_active(state_bits: u64) -> (r: bool)
    ensures
        r == has_state(state_bits, atspi_state_bits("active"@)),
{
    let active = state_bits_from_name("active");
    (state_bits & active) == active
}

/// Whether a window belongs to the focused process. Without a focused pid
/// (`0`) any window does; otherwise a window whose application reports a
/// different non-zero pid does not. `app_pid` is `None` when the
/// application could not be asked, which accepts the window.
pub fn accepts_window_pid(focused_pid: u32, app_pid: Option<i32>) -> (r: bool)
    ensures
        r == (focused_pid == 0 || match app_pid {
            Some(p) => p == 0 || p as u32 == focused_pid,
            None => true,
        }),
{
    if focused_pid == 0 {
        return true;
    }
    match app_pid {
        Some(p) => p == 0 || p as u32 == focused_pid,
        None => true,
    }
}

/// What the search for the focused accessible window has just learnt.
#[derive(Debug)]
pub enum WindowSearchEvent {
    /// An application's description, where it could be read.
    AppDescription(Option<String>),
    /// Whether an application's windows could be listed.
    AppWindowsListed(bool),
    /// A window's state set, where the window and its state could be read.
    WindowState(Option<u64>),
    /// The process id its application reports, where it could be asked.
    WindowAppPid(Option<i32>),
}

/// What the search does next.
#[derive(Debug, Clone, Copy, PartialEq, Eq, Structural)]
pub enum WindowSearchAction {
    /// List the application's windows.
    ListWindows,
    /// Go through the listed windows, reporting each one's state.
    CheckWindows,
    /// Go on with the next application.
    NextApp,
    /// Go on with the next window of this application.
    NextWindow,
    /// Ask the window's application for its process id.
    AskPid,
    /// This window is the focused one.
    Found,
}

/// The search's next step: GNOME's frames helper is skipped, an
/// application whose windows cannot be listed is skipped, a window that is
/// not active (or unreadable) is skipped, and an active window is the focused
/// one at once when no focused pid is known, else once its application's pid
/// is accepted (see [`accepts_window_pid`]).
pub open spec fn search_step(focused_pid: u32, event: WindowSearchEvent) -> WindowSearchAction {
    match event {
        WindowSearchEvent::AppDescription(d) => match d {
            Some(text) => if contains(text@, "mutter-x11-frames"@) {
                WindowSearchAction::NextApp
            } else {
                WindowSearchAction::ListWindows
            },
            None => WindowSearchAction::ListWindows,
        },
        WindowSearchEvent::AppWindowsListed(ok) => if ok {
            WindowSearchAction::CheckWindows
        } else {
            WindowSearchAction::NextApp
        },
        WindowSearchEvent::WindowState(st) => match st {
            Some(bits) => if !has_state(bits, atspi_state_bits("active"@)) {
                WindowSearchAction::NextWindow
            } else if focused_pid != 0 {
                WindowSearchAction::AskPid
            } else {
                WindowSearchAction::Found
            },
            None => WindowSearchAction::NextWindow,
        },
        WindowSearchEvent::WindowAppPid(p) => if accepts_pid(focused_pid, p) {
            WindowSearchAction::Found
        } else {
            WindowSearchAction::NextWindow
        },
    }
}

/// Whether a window belongs to the focused process (see
/// [`accepts_window_pid`]).
pub open spec fn accepts_pid(focused_pid: u32, app_pid: Option<i32>) -> bool {
    focused_pid == 0 || match app_pid {
        Some(p) => p == 0 || p as u32 == focused_pid,
        None => true,
    }
}

/// The next step of the search for the focused accessible window (see
/// [`search_step`]).
pub fn next_search_action(focused_pid: u32, event: &WindowSearchEvent) -> (r: WindowSearchAction)
    ensures
        r == search_step(focused_pid, *event),
{
    match event {
        WindowSearchEvent::AppDescription(d) => match d {
            Some(text) => if is_frames_helper(text.as_str()) {
                WindowSearchAction::NextApp
            } else {
                WindowSearchAction::ListWindows
            },
            None => WindowSearchAction::ListWindows,
        },
        WindowSearchEvent::AppWindowsListed(ok) => if *ok {
            WindowSearchAction::CheckWindows
        } else {
            WindowSearchAction::NextApp
        },
        WindowSearchEvent::WindowState(st) => match st {
            Some(bits) => if !window_is_active(*bits) {
                WindowSearchAction::NextWindow
            } else if focused_pid != 0 {
                WindowSearchAction::AskPid
            } else {
                WindowSearchAction::Found
            },
            None => WindowSearchAction::NextWindow,
        },
        WindowSearchEvent::WindowAppPid(p) => if accepts_window_pid(focused_pid, *p) {
            WindowSearchAction::Found
        } else {
            WindowSearchAction::NextWindow
        },
    }
}

// ---------------------------------------------------------------------------
// Coordinates of accessible elements
// ---------------------------------------------------------------------------

/// Whether a toolkit is GTK 4 or later: named `GTK` in any ASCII case, with
/// a version whose first dot-separated component reads as a number of at
/// least 4.
pub open spec fn is_gtk4_spec(toolkit: Seq<char>, version: Seq<char>) -> bool {
    eq_ignore_ascii_case(toolkit, "GTK"@) && match parse_u32(split_pieces(version, '.')[0]) {
        Some(major) => major >= 4,
        None => false,
    }
}

/// Whether the application's toolkit is GTK 4 or later (see [`is_gtk4_spec`]).
pub fn is_gtk4(toolkit: &str, version: &str) -> (r: bool)
    ensures
        r == is_gtk4_spec(toolkit@, version@),
{
    if !eq_ignore_case(&chars_of(toolkit), &chars_of("GTK")) {
        return false;
    }
    let pieces = split_chars(&chars_of(version), '.');
    proof {
        lemma_split_pieces_nonempty(version@, '.');
        assert(pieces@.map_values(|p: Vec<char>| p@)[0] == pieces@[0]@);
    }
    match parse_u32_chars(&pieces[0]) {
        Some(major) => major >= 4,
        None => false,
    }
}

/// Whether element extents are read relative to the window (on Wayland, or
/// for GTK 4 applications) rather than to the screen.
pub fn uses_window_coordinates(ws_type: WindowSystemType, gtk4: bool) -> (r: bool)
    ensures
        r == (ws_type == WindowSystemType::Wayland || gtk4),
{
    match ws_type {
        WindowSystemType::Wayland => true,
        WindowSystemType::X11 => gtk4,
    }
}

/// A window-relative x coordinate of `-1` is read as `1`.
pub fn normalize_window_x(x: i32) -> (r: i32)
    ensures
        r == if x == -1 {
            1
        } else {
            x
        },
{
    if x == -1 {
        1
    } else {
        x
    }
}

/// The result of the accessibility backend: the elements found, or an
/// error naming the application when there are none.
pub fn accessible_children<T>(children: Vec<T>, app_name: &str) -> (r: Result<
    Vec<T>,
    AccessibleChildrenNotFound,
>)
    ensures
        children@.len() > 0 ==> (r matches Ok(c) && c@ == children@),
        children@.len() == 0 ==> (r matches Err(e) && e.message@ == "No accessible children found for "@
            + app_name@),
{
    if children.len() == 0 {
        Err(AccessibleChildrenNotFound { message: concat("No accessible children found for ", app_name) })
    } else {
        Ok(children)
    }
}

// ---------------------------------------------------------------------------
// Edge detection
// ---------------------------------------------------------------------------

/// The error for a focused window without area.
pub fn check_window_extents(win_w: i32, win_h: i32, app_name: &str) -> (r: Result<
    (),
    AccessibleChildrenNotFound,
>)
    ensures
        (win_w <= 0 || win_h <= 0) ==> (r matches Err(e) && e.message@ == "Invalid window extents for "@
            + app_name@),
        !(win_w <= 0 || win_h <= 0) ==> r is Ok,
{
    if win_w <= 0 || win_h <= 0 {
        Err(AccessibleChildrenNotFound { message: concat("Invalid window extents for ", app_name) })
    } else {
        Ok(())
    }
}

/// The dilation radius for a kernel size: half of it, at least 1, truncated
/// to `u8`.
pub open spec fn radius_for(kernel_size: u32) -> u8 {
    let half = kernel_size / 2;
    (if half >= 1 {
        half
    } else {
        1
    }) as u8
}

/// The dilation radius for a kernel size (see [`radius_for`]).
pub fn kernel_radius(kernel_size: u32) -> (r: u8)
    ensures
        r == radius_for(kernel_size),
{
    let half = kernel_size / 2;
    let m = if half >= 1 {
        half
    } else {
        1
    };
    m as u8
}

/// Whether a foreground (non-zero) pixel of a `width` by `height` row-major
/// image lies within Chebyshev distance `radius` of `(x, y)`.
pub open spec fn near_foreground(width: int, height: int, pixels: Seq<u8>, x: int, y: int, radius: int) -> bool {
    exists|fx: int, fy: int|
        0 <= fx < width && 0 <= fy < height && #[trigger] pixels[fy * width + fx] != 0 && x - radius
            <= fx <= x + radius && y - radius <= fy <= y + radius
}

/// The largest distance the crate's distance transform records: the sum of
/// the sides, at most 255.
pub open spec fn distance_cap(width: u32, height: u32) -> int {
    if width + height < 255 {
        width + height
    } else {
        255
    }
}

/// The `LInf` dilation of a grey image: a pixel is white (255) where a
/// foreground pixel lies within `radius` of it, or where the recorded
/// distances are capped at no more than `radius`; otherwise black.
pub open spec fn dilated_linf(width: u32, height: u32, pixels: Seq<u8>, radius: u8) -> Seq<u8> {
    Seq::new(
        (width * height) as nat,
        |i: int|
            if near_foreground(width as int, height as int, pixels, i % (width as int), i / (width as int), radius as int)
                || distance_cap(width, height) <= radius {
                255u8
            } else {
                0u8
            },
    )
}

/// `imageproc::morphology::dilate(image, Norm::LInf, radius)` on raw
/// pixels. Trusted: the crate documents that all pixels within distance
/// `radius` of a foreground (non-zero) pixel become white and the rest
/// black; its distance transform records at most `min(width + height,
/// 255)`, so where that cap is within `radius` every pixel becomes white.
/// It adds the sides in `u32`, so they must fit in `i32`.
#[verifier::external_body]
fn dilate_linf(width: u32, height: u32, pixels: Vec<u8>, radius: u8) -> (r: Vec<u8>)
    requires
        pixels@.len() == width * height,
        width <= i32::MAX,
        height <= i32::MAX,
    ensures
        r@ == dilated_linf(width, height, pixels@, radius),
{
    let image = GrayImage::from_raw(width, height, pixels).unwrap();
    dilate(&image, Norm::LInf, radius).into_raw()
}

/// What `imageproc::contours::find_contours` finds in a grey image: the
/// border points of each foreground region, as `(x, y)`.
pub uninterp spec fn imageproc_contours(width: u32, height: u32, pixels: Seq<u8>) -> Seq<Seq<(i32, i32)>>;

/// Views of a list of contours.
pub open spec fn contours_view(v: Seq<Vec<(i32, i32)>>) -> Seq<Seq<(i32, i32)>> {
    v.map_values(|c: Vec<(i32, i32)>| c@)
}

/// Whether every point of some contours is a pixel position of a `width`
/// by `height` image.
pub open spec fn points_within(contours: Seq<Seq<(i32, i32)>>, width: int, height: int) -> bool {
    forall|i: int, j: int|
        0 <= i < contours.len() && 0 <= j < contours[i].len() ==> 0 <= #[trigger] contours[i][j].0
            < width && 0 <= contours[i][j].1 < height
}

/// `imageproc::contours::find_contours::<i32>` on raw pixels. Trusted: the
/// result is the contours' points, a function of the arguments alone; every
/// point is a pixel position of the image (border following only visits
/// in-bounds positions). The crate converts each coordinate to `i32` with
/// `unwrap`, so the image's sides must fit in `i32`.
#[verifier::external_body]
fn contours_of(width: u32, height: u32, pixels: &Vec<u8>) -> (r: Vec<Vec<(i32, i32)>>)
    requires
        pixels@.len() == width * height,
        width <= i32::MAX,
        height <= i32::MAX,
    ensures
        contours_view(r@) == imageproc_contours(width, height, pixels@),
        points_within(contours_view(r@), width as int, height as int),
{
    let image = GrayImage::from_raw(width, height, pixels.clone()).unwrap();
    find_contours::<i32>(&image).into_iter().map(
        |c| c.points.into_iter().map(|p| (p.x, p.y)).collect(),
    ).collect()
}

/// A hintable element found by edge detection: its bounding box, in screen
/// coordinates (`abs_*`) and relative to the window (`rel_*`).
#[derive(Debug, Clone, Copy, PartialEq, Eq, Structural)]
pub struct ContourChild {
    pub abs_x: i32,
    pub abs_y: i32,
    pub rel_x: i32,
    pub rel_y: i32,
    pub width: i32,
    pub height: i32,
}

/// The bounding box of some points: `(min_x, min_y, max_x, max_y)`, folded
/// from `(i32::MAX, i32::MAX, i32::MIN, i32::MIN)`.
pub open spec fn bounding_box(points: Seq<(i32, i32)>) -> (i32, i32, i32, i32)
    decreases points.len(),
{
    if points.len() == 0 {
        (i32::MAX, i32::MAX, i32::MIN, i32::MIN)
    } else {
        let (a, b, c, d) = bounding_box(points.drop_last());
        let p = points.last();
        (
            if p.0 < a { p.0 } else { a },
            if p.1 < b { p.1 } else { b },
            if p.0 > c { p.0 } else { c },
            if p.1 > d { p.1 } else { d },
        )
    }
}

/// The element a non-empty contour stands for.
pub open spec fn child_for(points: Seq<(i32, i32)>, win_x: i32, win_y: i32) -> ContourChild {
    let (min_x, min_y, max_x, max_y) = bounding_box(points);
    ContourChild {
        abs_x: (min_x + win_x) as i32,
        abs_y: (min_y + win_y) as i32,
        rel_x: min_x,
        rel_y: min_y,
        width: (max_x - min_x + 1) as i32,
        height: (max_y - min_y + 1) as i32,
    }
}

/// The elements of a list of contours, empty contours skipped.
pub open spec fn children_for(contours: Seq<Seq<(i32, i32)>>, win_x: i32, win_y: i32) -> Seq<
    ContourChild,
>
    decreases contours.len(),
{
    if contours.len() == 0 {
        Seq::empty()
    } else {
        let rest = children_for(contours.drop_last(), win_x, win_y);
        if contours.last().len() == 0 {
            rest
        } else {
            rest.push(child_for(contours.last(), win_x, win_y))
        }
    }
}

/// Whether every non-empty contour's element can be computed in `i32`: its
/// screen position and its size fit.
pub open spec fn contours_fit(contours: Seq<Seq<(i32, i32)>>, win_x: i32, win_y: i32) -> bool {
    forall|i: int|
        0 <= i < contours.len() && #[trigger] contours[i].len() > 0 ==> {
            let b = bounding_box(contours[i]);
            &&& i32::MIN <= b.0 + win_x <= i32::MAX
            &&& i32::MIN <= b.1 + win_y <= i32::MAX
            &&& b.2 - b.0 + 1 <= i32::MAX
            &&& b.3 - b.1 + 1 <= i32::MAX
        }
}

proof fn lemma_box_ordered(points: Seq<(i32, i32)>)
    requires
        points.len() > 0,
    ensures
        bounding_box(points).0 <= bounding_box(points).2,
        bounding_box(points).1 <= bounding_box(points).3,
    decreases points.len(),
{
    if points.len() > 1 {
        lemma_box_ordered(points.drop_last());
    }
}

/// The bounding box of one contour.
fn box_of(points: &Vec<(i32, i32)>) -> (r: (i32, i32, i32, i32))
    ensures
        r == bounding_box(points@),
{
    let mut min_x = i32::MAX;
    let mut min_y = i32::MAX;
    let mut max_x = i32::MIN;
    let mut max_y = i32::MIN;
    let mut i: usize = 0;
    while i < points.len()
        invariant
            i <= points@.len(),
            (min_x, min_y, max_x, max_y) == bounding_box(points@.take(i as int)),
        decreases points@.len() - i,
    {
        assert(points@.take(i + 1).drop_last() =~= points@.take(i as int));
        let p = points[i];
        if p.0 < min_x {
            min_x = p.0;
        }
        if p.1 < min_y {
            min_y = p.1;
        }
        if p.0 > max_x {
            max_x = p.0;
        }
        if p.1 > max_y {
            max_y = p.1;
        }
        i += 1;
    }
    assert(points@.take(points@.len() as int) =~= points@);
    (min_x, min_y, max_x, max_y)
}

/// The elements edge-detection contours stand for, in order, empty
/// contours skipped; the window's origin is added to get screen positions.
pub fn children_from_contours(contours: &Vec<Vec<(i32, i32)>>, win_x: i32, win_y: i32) -> (r: Vec<
    ContourChild,
>)
    requires
        contours_fit(contours_view(contours@), win_x, win_y),
    ensures
        r@ == children_for(contours_view(contours@), win_x, win_y),
{
    let ghost cv = contours_view(contours@);
    let mut r: Vec<ContourChild> = Vec::new();
    let mut i: usize = 0;
    while i < contours.len()
        invariant
            i <= contours@.len(),
            cv == contours_view(contours@),
            contours_fit(cv, win_x, win_y),
            r@ == children_for(cv.take(i as int), win_x, win_y),
        decreases contours@.len() - i,
    {
        assert(cv.take(i + 1).drop_last() =~= cv.take(i as int));
        assert(cv.take(i + 1).last() == contours@[i as int]@);
        let points = &contours[i];
        if points.len() > 0 {
            assert(cv[i as int] == points@);
            proof {
                lemma_box_ordered(points@);
            }
            let (min_x, min_y, max_x, max_y) = box_of(points);
            r.push(
                ContourChild {
                    abs_x: min_x + win_x,
                    abs_y: min_y + win_y,
                    rel_x: min_x,
                    rel_y: min_y,
                    width: max_x - min_x + 1,
                    height: max_y - min_y + 1,
                },
            );
        }
        i += 1;
    }
    assert(cv.take(contours@.len() as int) =~= cv);
    r
}

/// Whether the elements of some contours can be computed in `i32` (see
/// [`contours_fit`]).
pub fn contours_fit_window(contours: &Vec<Vec<(i32, i32)>>, win_x: i32, win_y: i32) -> (r: bool)
    ensures
        r == contours_fit(contours_view(contours@), win_x, win_y),
{
    let ghost cv = contours_view(contours@);
    let mut i: usize = 0;
    while i < contours.len()
        invariant
            i <= contours@.len(),
            cv == contours_view(contours@),
            contours_fit(cv.take(i as int), win_x, win_y),
        decreases contours@.len() - i,
    {
        let points = &contours[i];
        assert(cv[i as int] == points@);
        if points.len() > 0 {
            let (min_x, min_y, max_x, max_y) = box_of(points);
            let ok = (min_x as i64 + win_x as i64) <= 0x7fff_ffffi64 && (min_x as i64 + win_x as i64)
                >= -0x8000_0000i64 && (min_y as i64 + win_y as i64) <= 0x7fff_ffffi64 && (min_y as i64
                + win_y as i64) >= -0x8000_0000i64 && (max_x as i64 - min_x as i64 + 1) <= 0x7fff_ffffi64
                && (max_y as i64 - min_y as i64 + 1) <= 0x7fff_ffffi64;
            if !ok {
                assert(!contours_fit(cv, win_x, win_y)) by {
                    assert(cv[i as int].len() > 0);
                }
                return false;
            }
        }
        assert forall|k: int| 0 <= k < i + 1 && #[trigger] cv.take(i + 1)[k].len() > 0 implies {
            let b = bounding_box(cv.take(i + 1)[k]);
            &&& i32::MIN <= b.0 + win_x <= i32::MAX
            &&& i32::MIN <= b.1 + win_y <= i32::MAX
            &&& b.2 - b.0 + 1 <= i32::MAX
            &&& b.3 - b.1 + 1 <= i32::MAX
        } by {
            if k < i {
                assert(cv.take(i + 1)[k] == cv.take(i as int)[k]);
            }
        }
        i += 1;
    }
    assert(cv.take(contours@.len() as int) =~= cv);
    true
}

/// Whether every element's box lies within a `width` by `height` image and
/// is at least one pixel wide and high.
pub open spec fn children_within(children: Seq<ContourChild>, width: int, height: int) -> bool {
    forall|k: int|
        0 <= k < children.len() ==> {
            let c = #[trigger] children[k];
            &&& 0 <= c.rel_x && c.width >= 1 && c.rel_x + c.width <= width
            &&& 0 <= c.rel_y && c.height >= 1 && c.rel_y + c.height <= height
        }
}

proof fn lemma_box_bounds(points: Seq<(i32, i32)>, width: int, height: int)
    requires
        points.len() > 0,
        forall|j: int| 0 <= j < points.len() ==> 0 <= #[trigger] points[j].0 < width && 0 <= points[j].1 < height,
    ensures
        0 <= bounding_box(points).0 <= bounding_box(points).2 < width,
        0 <= bounding_box(points).1 <= bounding_box(points).3 < height,
    decreases points.len(),
{
    let q = points.drop_last();
    if points.len() > 1 {
        assert forall|j: int| 0 <= j < q.len() implies 0 <= #[trigger] q[j].0 < width && 0 <= q[j].1 < height by {
            assert(q[j] == points[j]);
        }
        lemma_box_bounds(q, width, height);
    }
    let p = points.last();
    assert(points[points.len() - 1] == p);
    let bq = bounding_box(q);
    assert(bounding_box(points) == (
        if p.0 < bq.0 { p.0 } else { bq.0 },
        if p.1 < bq.1 { p.1 } else { bq.1 },
        if p.0 > bq.2 { p.0 } else { bq.2 },
        if p.1 > bq.3 { p.1 } else { bq.3 },
    ));
}

proof fn lemma_children_within(contours: Seq<Seq<(i32, i32)>>, width: int, height: int, win_x: i32, win_y: i32)
    requires
        points_within(contours, width, height),
        width <= i32::MAX,
        height <= i32::MAX,
    ensures
        children_within(children_for(contours, win_x, win_y), width, height),
    decreases contours.len(),
{
    if contours.len() > 0 {
        let q = contours.drop_last();
        assert(points_within(q, width, height)) by {
            assert forall|i: int, j: int| 0 <= i < q.len() && 0 <= j < q[i].len() implies 0
                <= #[trigger] q[i][j].0 < width && 0 <= q[i][j].1 < height by {
                assert(q[i] == contours[i]);
            }
        }
        lemma_children_within(q, width, height, win_x, win_y);
        let last = contours.last();
        if last.len() > 0 {
            assert(contours[contours.len() - 1] == last);
            assert forall|j: int| 0 <= j < last.len() implies 0 <= #[trigger] last[j].0 < width && 0 <= last[j].1
                < height by {
                assert(contours[contours.len() - 1][j] == last[j]);
            }
            lemma_box_bounds(last, width, height);
        }
    }
}

/// The elements the edge-detection backend finds in an edge image (the
/// Canny edges of the focused window, `width` by `height`, row-major): the
/// edges are dilated by [`kernel_radius`], their contours traced, and each
/// non-empty contour's bounding box becomes an element; none found is an
/// error naming the application. `None` where an element's screen position
/// does not fit in `i32` (see [`contours_fit`]).
pub fn children_from_edges(
    edges: Vec<u8>,
    width: u32,
    height: u32,
    kernel_size: u32,
    win_x: i32,
    win_y: i32,
    app_name: &str,
) -> (r: Option<Result<Vec<ContourChild>, AccessibleChildrenNotFound>>)
    requires
        edges@.len() == width * height,
        width <= i32::MAX,
        height <= i32::MAX,
    ensures
        ({
            let dilated = dilated_linf(width, height, edges@, radius_for(kernel_size));
            let contours = imageproc_contours(width, height, dilated);
            let found = children_for(contours, win_x, win_y);
            &&& !contours_fit(contours, win_x, win_y) ==> r is None
            &&& (contours_fit(contours, win_x, win_y) && found.len() > 0) ==> (r matches Some(Ok(c))
                && c@ == found)
            &&& r matches Some(Ok(c)) ==> children_within(c@, width as int, height as int)
            &&& (contours_fit(contours, win_x, win_y) && found.len() == 0) ==> (r matches Some(Err(e))
                && e.message@ == "No children found for "@ + app_name@)
        }),
{
    let radius = kernel_radius(kernel_size);
    let dilated = dilate_linf(width, height, edges, radius);
    let contours = contours_of(width, height, &dilated);
    proof {
        lemma_children_within(contours_view(contours@), width as int, height as int, win_x, win_y);
    }
    if !contours_fit_window(&contours, win_x, win_y) {
        return None;
    }
    let children = children_from_contours(&contours, win_x, win_y);
    if children.len() == 0 {
        Some(Err(AccessibleChildrenNotFound { message: concat("No children found for ", app_name) }))
    } else {
        Some(Ok(children))
    }
}

} // verus!
