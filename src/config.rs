use vstd::prelude::*;

use crate::keybind::KeybindAction;
use crate::tagset::MAX_TAGS;
use crate::util::str_eq;

verus! {

/// Why a configuration was rejected.
#[derive(Debug, Clone, PartialEq, Eq)]
pub enum ConfigError {
    /// A modifier key name outside the accepted set.
    InvalidModifier(String),
    /// More tags enabled than a monitor can hold; carries the number given.
    TooManyTags(usize),
    /// An enabled tag index below one or above the maximum.
    TagOutOfRange(u8),
    /// An enabled tag without a label, or with an empty one.
    MissingLabel(u8),
    /// A colour string that is not a hexadecimal number.
    InvalidHexColor(String),
    /// The selected border colour does not parse.
    InvalidSelectedColor,
    /// The inactive border colour does not parse.
    InvalidInactiveColor,
}

/// The modifier key names that a configuration may use.
pub open spec fn valid_modifier(m: Seq<char>) -> bool {
    m == "super"@ || m == "alt"@ || m == "ctrl"@ || m == "meta"@ || m == "windows"@ || m
        == "win"@
}

/// Whether `m` names an accepted modifier key.
pub fn is_modifier_name(m: &str) -> (r: bool)
    ensures
        r == valid_modifier(m@),
{
    str_eq(m, "super") || str_eq(m, "alt") || str_eq(m, "ctrl") || str_eq(m, "meta") || str_eq(
        m,
        "windows",
    ) || str_eq(m, "win")
}

/// The error for the first invalid modifier of `ms`, if any.
pub open spec fn first_invalid_modifier(ms: Seq<String>) -> Option<ConfigError>
    decreases ms.len(),
{
    if ms.len() == 0 {
        None
    } else if !valid_modifier(ms[0]@) {
        Some(ConfigError::InvalidModifier(ms[0]))
    } else {
        first_invalid_modifier(ms.drop_first())
    }
}

/// `Ok` for `None`, `Err` for an error.
pub open spec fn as_result(e: Option<ConfigError>) -> Result<(), ConfigError> {
    match e {
        None => Ok(()),
        Some(e) => Err(e),
    }
}

/// Keyboard configuration.
#[derive(Debug, Clone, PartialEq, Eq)]
pub struct KeyboardConfig {
    /// The modifier key.
    pub mod_key: String,
}

impl Default for KeyboardConfig {
    /// The `super` key as modifier.
    fn default() -> (r: KeyboardConfig)
        ensures
            r.mod_key@ == "super"@,
    {
        KeyboardConfig { mod_key: String::from_str("super") }
    }
}

impl KeyboardConfig {
    /// The error this section holds, if any.
    pub open spec fn error(self) -> Option<ConfigError> {
        if valid_modifier(self.mod_key@) {
            None
        } else {
            Some(ConfigError::InvalidModifier(self.mod_key))
        }
    }

    /// Accepts exactly the modifier names `super`, `alt`, `ctrl`, `meta`, `windows` and `win`.
    pub fn validate_modifier(modifier: &str) -> (r: Result<(), ConfigError>)
        ensures
            r is Ok <==> valid_modifier(modifier@),
            r matches Err(ConfigError::InvalidModifier(s)) ==> s@ == modifier@,
            r is Err ==> r->Err_0 is InvalidModifier,
    {
        if is_modifier_name(modifier) {
            Ok(())
        } else {
            Err(ConfigError::InvalidModifier(String::from_str(modifier)))
        }
    }

    /// Validates this section.
    pub fn validate(&self) -> (r: Result<(), ConfigError>)
        ensures
            r == as_result(self.error()),
    {
        if is_modifier_name(self.mod_key.as_str()) {
            Ok(())
        } else {
            Err(ConfigError::InvalidModifier(self.mod_key.clone()))
        }
    }
}

/// A key binding.
#[derive(Debug, Clone, PartialEq, Eq)]
pub struct KeyBinding {
    /// The key.
    pub key: String,
    /// The modifiers; the global modifier key when absent.
    pub modifiers: Option<Vec<String>>,
    /// The action to execute.
    pub action: KeybindAction,
}

/// Checks each modifier name in order, stopping at the first invalid one.
fn check_modifiers(ms: &Vec<String>) -> (r: Result<(), ConfigError>)
    ensures
        r == as_result(first_invalid_modifier(ms@)),
{
    let mut i: usize = 0;
    assert(ms@.skip(0) =~= ms@);
    while i < ms.len()
        invariant
            i <= ms@.len(),
            first_invalid_modifier(ms@) == first_invalid_modifier(ms@.skip(i as int)),
        decreases ms.len() - i,
    {
        assert(ms@.skip(i as int)[0] == ms@[i as int]);
        assert(ms@.skip(i as int).drop_first() =~= ms@.skip(i + 1));
        if !is_modifier_name(ms[i].as_str()) {
            return Err(ConfigError::InvalidModifier(ms[i].clone()));
        }
        i += 1;
    }
    assert(ms@.skip(i as int) =~= Seq::<String>::empty());
    Ok(())
}

impl KeyBinding {
    /// The error this binding holds, if any: its first invalid modifier.
    pub open spec fn error(self) -> Option<ConfigError> {
        match self.modifiers {
            None => None,
            Some(ms) => first_invalid_modifier(ms@),
        }
    }

    /// Validates this binding.
    pub fn validate(&self) -> (r: Result<(), ConfigError>)
        ensures
            r == as_result(self.error()),
    {
        match &self.modifiers {
            None => Ok(()),
            Some(ms) => check_modifiers(ms),
        }
    }
}

/// The tags enabled when a configuration names none: one to nine.
pub fn enabled_tags() -> (r: Vec<u8>)
    ensures
        r@ == seq![1u8, 2, 3, 4, 5, 6, 7, 8, 9],
{
    let r = vec![1u8, 2, 3, 4, 5, 6, 7, 8, 9];
    assert(r@ =~= seq![1u8, 2, 3, 4, 5, 6, 7, 8, 9]);
    r
}

/// Configuration element for tags.
#[derive(Debug, Clone, PartialEq, Eq)]
pub struct TagsConfig {
    /// All enabled tags.
    pub enabled_tags: Vec<u8>,
    /// Label for tag 1.
    pub label_1: Option<String>,
    /// Label for tag 2.
    pub label_2: Option<String>,
    /// Label for tag 3.
    pub label_3: Option<String>,
    /// Label for tag 4.
    pub label_4: Option<String>,
    /// Label for tag 5.
    pub label_5: Option<String>,
    /// Label for tag 6.
    pub label_6: Option<String>,
    /// Label for tag 7.
    pub label_7: Option<String>,
    /// Label for tag 8.
    pub label_8: Option<String>,
    /// Label for tag 9.
    pub label_9: Option<String>,
    /// Label for tag 10.
    pub label_10: Option<String>,
}

impl Default for TagsConfig {
    /// Tags one to nine enabled, none labelled.
    fn default() -> (r: TagsConfig)
        ensures
            r.enabled_tags@ == seq![1u8, 2, 3, 4, 5, 6, 7, 8, 9],
            forall|t: u8| r.label_field(t) is None,
    {
        TagsConfig {
            enabled_tags: enabled_tags(),
            label_1: None,
            label_2: None,
            label_3: None,
            label_4: None,
            label_5: None,
            label_6: None,
            label_7: None,
            label_8: None,
            label_9: None,
            label_10: None,
        }
    }
}

impl TagsConfig {
    /// The label field for `tag`; `None` for an index outside one to ten.
    pub open spec fn label_field(self, tag: u8) -> Option<String> {
        if tag == 1 {
            self.label_1
        } else if tag == 2 {
            self.label_2
        } else if tag == 3 {
            self.label_3
        } else if tag == 4 {
            self.label_4
        } else if tag == 5 {
            self.label_5
        } else if tag == 6 {
            self.label_6
        } else if tag == 7 {
            self.label_7
        } else if tag == 8 {
            self.label_8
        } else if tag == 9 {
            self.label_9
        } else if tag == 10 {
            self.label_10
        } else {
            None
        }
    }

    /// The error an enabled `tag` gives, if any.
    pub open spec fn tag_error(self, tag: u8) -> Option<ConfigError> {
        if tag > MAX_TAGS || tag < 1 {
            Some(ConfigError::TagOutOfRange(tag))
        } else if self.label_field(tag) is None || self.label_field(tag)->Some_0@.len() == 0 {
            Some(ConfigError::MissingLabel(tag))
        } else {
            None
        }
    }

    /// The error of the first tag of `tags` that gives one.
    pub open spec fn first_tag_error(self, tags: Seq<u8>) -> Option<ConfigError>
        decreases tags.len(),
    {
        if tags.len() == 0 {
            None
        } else if self.tag_error(tags[0]) is Some {
            self.tag_error(tags[0])
        } else {
            self.first_tag_error(tags.drop_first())
        }
    }

    /// The error this section holds, if any.
    pub open spec fn error(self) -> Option<ConfigError> {
        if self.enabled_tags@.len() > MAX_TAGS {
            Some(ConfigError::TooManyTags(self.enabled_tags@.len() as usize))
        } else {
            self.first_tag_error(self.enabled_tags@)
        }
    }

    /// The labels of `tags`, in order, skipping those without one.
    pub open spec fn labels_of(self, tags: Seq<u8>) -> Seq<String>
        decreases tags.len(),
    {
        if tags.len() == 0 {
            Seq::empty()
        } else {
            let head = match self.label_field(tags[0]) {
                Some(l) => seq![l],
                None => Seq::empty(),
            };
            head + self.labels_of(tags.drop_first())
        }
    }

    /// Validates this section: at most ten tags, each from one to ten and with
    /// a non-empty label.
    pub fn validate(&self) -> (r: Result<(), ConfigError>)
        ensures
            r == as_result(self.error()),
    {
        let n = self.enabled_tags.len();
        if n > MAX_TAGS {
            return Err(ConfigError::TooManyTags(n));
        }
        let mut i: usize = 0;
        assert(self.enabled_tags@.skip(0) =~= self.enabled_tags@);
        while i < n
            invariant
                n == self.enabled_tags@.len(),
                n <= MAX_TAGS,
                i <= n,
                self.first_tag_error(self.enabled_tags@) == self.first_tag_error(
                    self.enabled_tags@.skip(i as int),
                ),
            decreases n - i,
        {
            let tag = self.enabled_tags[i];
            assert(self.enabled_tags@.skip(i as int)[0] == tag);
            assert(self.enabled_tags@.skip(i as int).drop_first() =~= self.enabled_tags@.skip(
                i + 1,
            ));
            if tag > MAX_TAGS as u8 || tag < 1 {
                return Err(ConfigError::TagOutOfRange(tag));
            }
            match self.label(tag) {
                None => return Err(ConfigError::MissingLabel(tag)),
                Some(l) => {
                    if l.as_str().unicode_len() == 0 {
                        return Err(ConfigError::MissingLabel(tag));
                    }
                },
            }
            i += 1;
        }
        assert(self.enabled_tags@.skip(i as int) =~= Seq::<u8>::empty());
        Ok(())
    }

    /// Gets the labels of all enabled tags, in the order they are enabled.
    pub fn labels(&self) -> (r: Vec<String>)
        ensures
            r@ == self.labels_of(self.enabled_tags@),
    {
        let mut labels: Vec<String> = Vec::new();
        let n = self.enabled_tags.len();
        let mut i: usize = 0;
        assert(self.enabled_tags@.skip(0) =~= self.enabled_tags@);
        assert(Seq::<String>::empty() + self.labels_of(self.enabled_tags@) =~= self.labels_of(
            self.enabled_tags@,
        ));
        while i < n
            invariant
                n == self.enabled_tags@.len(),
                i <= n,
                self.labels_of(self.enabled_tags@) == labels@ + self.labels_of(
                    self.enabled_tags@.skip(i as int),
                ),
            decreases n - i,
        {
            let tag = self.enabled_tags[i];
            let ghost rest = self.enabled_tags@.skip(i as int);
            assert(rest[0] == tag);
            assert(rest.drop_first() =~= self.enabled_tags@.skip(i + 1));
            let label = self.label(tag);
            match label {
                Some(l) => {
                    assert(labels@ + (seq![l] + self.labels_of(rest.drop_first())) =~= labels@.push(
                        l,
                    ) + self.labels_of(rest.drop_first()));
                    labels.push(l);
                },
                None => {
                    assert(labels@ + (Seq::<String>::empty() + self.labels_of(rest.drop_first()))
                        =~= labels@ + self.labels_of(rest.drop_first()));
                },
            }
            i += 1;
        }
        assert(self.enabled_tags@.skip(i as int) =~= Seq::<u8>::empty());
        assert(labels@ + Seq::<String>::empty() =~= labels@);
        labels
    }

    /// Gets the label for the given tag; `None` for an unlabelled tag or an
    /// index outside one to ten.
    pub fn label(&self, tag: u8) -> (r: Option<String>)
        ensures
            r == self.label_field(tag),
    {
        let field = if tag == 1 {
            &self.label_1
        } else if tag == 2 {
            &self.label_2
        } else if tag == 3 {
            &self.label_3
        } else if tag == 4 {
            &self.label_4
        } else if tag == 5 {
            &self.label_5
        } else if tag == 6 {
            &self.label_6
        } else if tag == 7 {
            &self.label_7
        } else if tag == 8 {
            &self.label_8
        } else if tag == 9 {
            &self.label_9
        } else if tag == 10 {
            &self.label_10
        } else {
            return None;
        };
        match field {
            Some(l) => Some(l.clone()),
            None => None,
        }
    }
}

/// The value of a hexadecimal digit, either case.
pub open spec fn hex_digit(c: char) -> Option<u32> {
    if '0' <= c && c <= '9' {
        Some((c as u32 - '0' as u32) as u32)
    } else if 'a' <= c && c <= 'f' {
        Some((c as u32 - 'a' as u32 + 10) as u32)
    } else if 'A' <= c && c <= 'F' {
        Some((c as u32 - 'A' as u32 + 10) as u32)
    } else {
        None
    }
}

/// The number that the hexadecimal digits `s` spell, most significant first.
pub open spec fn hex_number(s: Seq<char>) -> int
    decreases s.len(),
{
    if s.len() == 0 {
        0
    } else {
        hex_number(s.drop_last()) * 16 + match hex_digit(s.last()) {
            Some(d) => d as int,
            None => 0,
        }
    }
}

/// `s` without its leading `#` characters.
pub open spec fn strip_hashes(s: Seq<char>) -> Seq<char>
    decreases s.len(),
{
    if s.len() > 0 && s[0] == '#' {
        strip_hashes(s.drop_first())
    } else {
        s
    }
}

/// `s` without one leading `+`, if it has one.
pub open spec fn unsigned_digits(s: Seq<char>) -> Seq<char> {
    if s.len() > 0 && s[0] == '+' {
        s.drop_first()
    } else {
        s
    }
}

/// Whether every character of `d` is a hex digit.
pub open spec fn all_hex_digits(d: Seq<char>) -> bool {
    forall|i: int| 0 <= i < d.len() ==> #[trigger] hex_digit(d[i]) is Some
}

/// A `u32` written in base 16: an optional `+`, then at least one hex digit,
/// with a value that fits.
pub open spec fn parse_hex(s: Seq<char>) -> Option<u32> {
    let d = unsigned_digits(s);
    if d.len() > 0 && all_hex_digits(d) && hex_number(d) <= u32::MAX {
        Some(hex_number(d) as u32)
    } else {
        None
    }
}

fn hex_digit_value(c: char) -> (r: Option<u32>)
    ensures
        r == hex_digit(c),
{
    if '0' <= c && c <= '9' {
        Some(c as u32 - '0' as u32)
    } else if 'a' <= c && c <= 'f' {
        Some(c as u32 - 'a' as u32 + 10)
    } else if 'A' <= c && c <= 'F' {
        Some(c as u32 - 'A' as u32 + 10)
    } else {
        None
    }
}

/// Parses a colour string: leading `#` characters are skipped, the rest is
/// read as a hexadecimal `u32`.
pub fn parse_hex_color(s: &str) -> (r: Option<u32>)
    ensures
        r == parse_hex(strip_hashes(s@)),
{
    let n = s.unicode_len();
    let mut i: usize = 0;
    assert(s@.skip(0) =~= s@);
    while i < n && s.get_char(i) == '#'
        invariant
            n == s@.len(),
            i <= n,
            strip_hashes(s@) == strip_hashes(s@.skip(i as int)),
        decreases n - i,
    {
        assert(s@.skip(i as int)[0] == '#');
        assert(s@.skip(i as int).drop_first() =~= s@.skip(i + 1));
        i += 1;
    }
    let ghost t = s@.skip(i as int);
    assert(strip_hashes(s@) == t) by {
        if i < n {
            assert(t[0] == s@[i as int]);
        }
    }
    let start = if i < n && s.get_char(i) == '+' {
        i + 1
    } else {
        i
    };
    let ghost d = s@.skip(start as int);
    assert(d =~= unsigned_digits(t));
    if start == n {
        return None;
    }
    let mut acc: u64 = 0;
    let mut j: usize = start;
    while j < n
        invariant
            n == s@.len(),
            start < n,
            start <= j <= n,
            d == s@.skip(start as int),
            strip_hashes(s@) == t,
            d == unsigned_digits(t),
            forall|k: int| 0 <= k < j - start ==> #[trigger] hex_digit(d[k]) is Some,
            acc == (if hex_number(s@.subrange(start as int, j as int)) < 0x1_0000_0000 {
                hex_number(s@.subrange(start as int, j as int))
            } else {
                0x1_0000_0000
            }),
        decreases n - j,
    {
        let c = s.get_char(j);
        let dg = match hex_digit_value(c) {
            Some(v) => v,
            None => {
                assert(d[j - start] == c);
                proof {
                    lemma_parse_hex_bad_digit(t, (j - start) as int);
                }
                return None;
            },
        };
        let ghost prev = s@.subrange(start as int, j as int);
        let ghost next = s@.subrange(start as int, j + 1);
        assert(next.drop_last() =~= prev);
        assert(next.last() == c);
        assert(hex_number(next) == hex_number(prev) * 16 + dg);
        assert(hex_number(prev) >= 0) by {
            lemma_hex_number_nonnegative(prev);
        }
        acc = if acc >= 0x1_0000_0000 {
            0x1_0000_0000
        } else {
            let v = acc * 16 + dg as u64;
            if v >= 0x1_0000_0000 {
                0x1_0000_0000
            } else {
                v
            }
        };
        assert(d[j - start] == c);
        j += 1;
    }
    assert(s@.subrange(start as int, n as int) =~= d);
    if acc > 0xFFFF_FFFF {
        None
    } else {
        Some(acc as u32)
    }
}

proof fn lemma_parse_hex_bad_digit(t: Seq<char>, k: int)
    requires
        0 <= k < unsigned_digits(t).len(),
        hex_digit(unsigned_digits(t)[k]) is None,
    ensures
        parse_hex(t) is None,
{
    assert(!all_hex_digits(unsigned_digits(t)));
}

proof fn lemma_hex_number_nonnegative(s: Seq<char>)
    ensures
        hex_number(s) >= 0,
    decreases s.len(),
{
    if s.len() > 0 {
        lemma_hex_number_nonnegative(s.drop_last());
    }
}

/// A colour given as an RGB triple, a 24-bit integer, or a hex string.
#[derive(Debug, Clone, PartialEq, Eq)]
pub enum ConfigColor {
    Rgb(u8, u8, u8),
    Hex(u32),
    HexString(String),
}

impl Default for ConfigColor {
    /// White.
    fn default() -> (r: ConfigColor)
        ensures
            r == ConfigColor::Hex(0xFFFFFF),
    {
        ConfigColor::Hex(0xFFFFFF)
    }
}

impl ConfigColor {
    /// The colour as a `0xRRGGBB` value, or `None` when the string does not parse.
    pub open spec fn value(self) -> Option<u32> {
        match self {
            ConfigColor::Rgb(r, g, b) => Some((r * 0x10000 + g * 0x100 + b) as u32),
            ConfigColor::Hex(v) => Some(v),
            ConfigColor::HexString(s) => parse_hex(strip_hashes(s@)),
        }
    }

    /// Gets the hex value of this colour.
    pub fn hex_value(&self) -> (r: Result<u32, ConfigError>)
        ensures
            r matches Ok(v) ==> self.value() == Some(v),
            r is Err <==> self.value() is None,
            r is Err ==> r == Err::<u32, ConfigError>(
                ConfigError::InvalidHexColor(self->HexString_0),
            ),
    {
        match self {
            ConfigColor::Rgb(r, g, b) => Ok(*r as u32 * 0x10000 + *g as u32 * 0x100 + *b as u32),
            ConfigColor::Hex(v) => Ok(*v),
            ConfigColor::HexString(hex) => match parse_hex_color(hex.as_str()) {
                Some(v) => Ok(v),
                None => Err(ConfigError::InvalidHexColor(hex.clone())),
            },
        }
    }
}

/// Configuration of window borders.
#[derive(Debug, Clone, PartialEq, Eq, Default)]
pub struct BorderConfig {
    /// Whether the borders are enabled or not.
    pub enabled: bool,
    /// The selected border colour.
    pub selected_color: ConfigColor,
    /// The inactive border colour.
    pub inactive_color: ConfigColor,
    /// The border width.
    pub width: u8,
}

impl BorderConfig {
    /// The error this section holds, if any; colours matter only when borders are enabled.
    pub open spec fn error(self) -> Option<ConfigError> {
        if !self.enabled {
            None
        } else if self.selected_color.value() is None {
            Some(ConfigError::InvalidSelectedColor)
        } else if self.inactive_color.value() is None {
            Some(ConfigError::InvalidInactiveColor)
        } else {
            None
        }
    }

    /// Validates this configuration section.
    pub fn validate(&self) -> (r: Result<(), ConfigError>)
        ensures
            r == as_result(self.error()),
    {
        if !self.enabled {
            return Ok(());
        }
        if self.selected_color.hex_value().is_err() {
            return Err(ConfigError::InvalidSelectedColor);
        }
        if self.inactive_color.hex_value().is_err() {
            return Err(ConfigError::InvalidInactiveColor);
        }
        Ok(())
    }
}

/// Configuration of window gaps.
#[derive(Debug, Clone, PartialEq, Eq, Default)]
pub struct GapsConfig {
    pub outer_left: u32,
    pub outer_right: u32,
    pub outer_bottom: u32,
    pub outer_top: u32,
    pub inner_left: u32,
    pub inner_right: u32,
    pub inner_bottom: u32,
    pub inner_top: u32,
}

/// The error of the first binding of `bs` that holds one.
pub open spec fn first_binding_error(bs: Seq<KeyBinding>) -> Option<ConfigError>
    decreases bs.len(),
{
    if bs.len() == 0 {
        None
    } else if bs[0].error() is Some {
        bs[0].error()
    } else {
        first_binding_error(bs.drop_first())
    }
}

/// The whole configuration.
#[derive(Debug, Clone, PartialEq, Eq)]
pub struct MainConfig {
    /// Tag configuration.
    pub tags: TagsConfig,
    /// Keyboard configuration.
    pub keyboard: KeyboardConfig,
    /// The key bindings.
    pub bindings: Vec<KeyBinding>,
    /// Border configuration.
    pub border: BorderConfig,
    /// Gap configuration.
    pub gaps: GapsConfig,
}

impl MainConfig {
    /// The first error of the configuration, checking tags, the keyboard, each
    /// binding in order, then the border.
    pub open spec fn error(self) -> Option<ConfigError> {
        if self.tags.error() is Some {
            self.tags.error()
        } else if self.keyboard.error() is Some {
            self.keyboard.error()
        } else if first_binding_error(self.bindings@) is Some {
            first_binding_error(self.bindings@)
        } else {
            self.border.error()
        }
    }

    /// Validates all sections of this configuration.
    pub fn validate(&self) -> (r: Result<(), ConfigError>)
        ensures
            r == as_result(self.error()),
    {
        let t = self.tags.validate();
        if t.is_err() {
            return t;
        }
        let k = self.keyboard.validate();
        if k.is_err() {
            return k;
        }
        let mut i: usize = 0;
        assert(self.bindings@.skip(0) =~= self.bindings@);
        while i < self.bindings.len()
            invariant
                i <= self.bindings@.len(),
                self.tags.error() is None,
                self.keyboard.error() is None,
                first_binding_error(self.bindings@) == first_binding_error(
                    self.bindings@.skip(i as int),
                ),
            decreases self.bindings.len() - i,
        {
            assert(self.bindings@.skip(i as int)[0] == self.bindings@[i as int]);
            assert(self.bindings@.skip(i as int).drop_first() =~= self.bindings@.skip(i + 1));
            let b = self.bindings[i].validate();
            if b.is_err() {
                return b;
            }
            i += 1;
        }
        assert(self.bindings@.skip(i as int) =~= Seq::<KeyBinding>::empty());
        self.border.validate()
    }
}

} // verus!
