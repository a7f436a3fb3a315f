use vstd::prelude::*;
use crate::source::{hex_bytes, hex_decode, is_hex};

verus! {

/// The settings of one run.
#[derive(Debug, Clone, Copy, PartialEq, Eq)]
pub struct Constants {
    /// Symbol size handed to the erasure coder, in bytes.
    pub chunk_size: u16,
    /// Gray level of the foreground modules.
    pub main_color: u8,
    /// Gray level of the background modules and of the border.
    pub back_color: u8,
    /// Side of one module, in pixels.
    pub scaling: i32,
    /// Numerator of the display delay of every frame.
    pub fps_nom: u16,
    /// Denominator of the display delay of every frame.
    pub fps_den: u16,
    /// Width of the quiet border, in modules.
    pub border: i32,
}

impl Constants {
    /// What the pipeline expects of its settings: a symbol size and a scaling
    /// that are positive, a border that is not negative, and two colours that
    /// can be told apart.
    pub open spec fn well_formed(&self) -> bool {
        &&& self.chunk_size > 0
        &&& self.scaling > 0
        &&& self.border >= 0
        &&& self.main_color != self.back_color
    }

    /// Tests `well_formed`.
    pub fn is_well_formed(&self) -> (ok: bool)
        ensures
            ok == self.well_formed(),
    {
        self.chunk_size > 0 && self.scaling > 0 && self.border >= 0 && self.main_color
            != self.back_color
    }
}

/// The settings that a settings file holds.
#[derive(Debug, Clone, Copy, PartialEq, Eq)]
pub enum Setting {
    ChunkSize,
    MainColor,
    BackColor,
    Scaling,
    FpsNom,
    FpsDen,
    Border,
}

/// Why a settings file was not taken.
#[derive(Debug, Clone, Copy, PartialEq, Eq)]
pub enum ConfigError {
    /// The file has no line for the setting.
    Missing(Setting),
    /// The value of the setting is no number or too large a one; or, once
    /// all settings were found, the chunk size or the scaling is zero.
    Invalid(Setting),
    /// The main and the back colour are the same gray level.
    IdenticalColors(u8),
}

/// The bytes that the named group of a pattern matches in a text, at the
/// first match of the pattern; `None` where the pattern is not a regular
/// expression, matches nowhere, or matches without the group.
pub uninterp spec fn captured(pattern: Seq<char>, group: Seq<char>, text: Seq<char>) -> Option<
    Seq<u8>,
>;

/// The model of a capture.
pub open spec fn capture_view(capture: Option<Vec<u8>>) -> Option<Seq<u8>> {
    match capture {
        Some(bytes) => Some(bytes@),
        None => None,
    }
}

/// Calls `regex::Regex::new` on the pattern, `Regex::captures` on the text
/// and `Captures::name` on the group, and copies the bytes of the match. Not
/// proved: that the outcome is a function of the three texts.
#[verifier::external_body]
fn first_capture(pattern: &str, group: &str, text: &str) -> (out: Option<Vec<u8>>)
    ensures
        capture_view(out) == captured(pattern@, group@, text@),
{
    match regex::Regex::new(pattern) {
        Ok(re) => re.captures(text).and_then(|found| found.name(group)).map(
            |m| m.as_str().as_bytes().to_vec(),
        ),
        Err(_) => None,
    }
}

/// What a settings file holds for a setting: the value behind its name, an
/// equals sign and a blank, up to the semicolon.
pub open spec fn setting_capture(which: Setting, text: Seq<char>) -> Option<Seq<u8>> {
    match which {
        Setting::ChunkSize => captured(
            "(?i)CHUNK_SIZE.*= (?P<chunk_size>[0-9]+);"@,
            "chunk_size"@,
            text,
        ),
        Setting::MainColor => captured(
            "(?i)MAIN_COLOR.*= (0x)?(?P<main_color>[0-9a-f]{2});"@,
            "main_color"@,
            text,
        ),
        Setting::BackColor => captured(
            "(?i)BACK_COLOR.*= (0x)?(?P<back_color>[0-9a-f]{2});"@,
            "back_color"@,
            text,
        ),
        Setting::Scaling => captured("(?i)SCALING.*= (?P<scaling>[0-9]*);"@, "scaling"@, text),
        Setting::FpsNom => captured("(?i)FPS_NOM.*= (?P<fps_nom>[0-9]+);"@, "fps_nom"@, text),
        Setting::FpsDen => captured("(?i)FPS_DEN.*= (?P<fps_den>[0-9]+);"@, "fps_den"@, text),
        Setting::Border => captured("(?i)BORDER.*= (?P<border>[0-9]+);"@, "border"@, text),
    }
}

/// Looks a setting up in the text of a settings file.
pub fn capture_setting(which: Setting, text: &str) -> (out: Option<Vec<u8>>)
    ensures
        capture_view(out) == setting_capture(which, text@),
{
    match which {
        Setting::ChunkSize => first_capture(
            "(?i)CHUNK_SIZE.*= (?P<chunk_size>[0-9]+);",
            "chunk_size",
            text,
        ),
        Setting::MainColor => first_capture(
            "(?i)MAIN_COLOR.*= (0x)?(?P<main_color>[0-9a-f]{2});",
            "main_color",
            text,
        ),
        Setting::BackColor => first_capture(
            "(?i)BACK_COLOR.*= (0x)?(?P<back_color>[0-9a-f]{2});",
            "back_color",
            text,
        ),
        Setting::Scaling => first_capture("(?i)SCALING.*= (?P<scaling>[0-9]*);", "scaling", text),
        Setting::FpsNom => first_capture("(?i)FPS_NOM.*= (?P<fps_nom>[0-9]+);", "fps_nom", text),
        Setting::FpsDen => first_capture("(?i)FPS_DEN.*= (?P<fps_den>[0-9]+);", "fps_den", text),
        Setting::Border => first_capture("(?i)BORDER.*= (?P<border>[0-9]+);", "border", text),
    }
}

/// One or more decimal digits.
pub open spec fn is_digits(s: Seq<u8>) -> bool {
    &&& s.len() > 0
    &&& forall|i: int| 0 <= i < s.len() ==> 0x30 <= #[trigger] s[i] <= 0x39
}

/// The number that a row of decimal digits spells.
pub open spec fn decimal_value(s: Seq<u8>) -> int
    decreases s.len(),
{
    if s.len() == 0 {
        0
    } else {
        decimal_value(s.drop_last()) * 10 + (s.last() - 0x30)
    }
}

/// The number that a text spells, where it is made of digits and the number
/// is at most `max`.
pub open spec fn parsed(s: Seq<u8>, max: int) -> Option<int> {
    if is_digits(s) && decimal_value(s) <= max {
        Some(decimal_value(s))
    } else {
        None
    }
}

/// A longer row of digits spells no smaller number than its beginning.
proof fn lemma_decimal_grows(s: Seq<u8>, k: int)
    requires
        0 <= k <= s.len(),
        forall|i: int| 0 <= i < s.len() ==> 0x30 <= #[trigger] s[i] <= 0x39,
    ensures
        0 <= decimal_value(s.subrange(0, k)) <= decimal_value(s),
    decreases s.len() - k,
{
    if k == s.len() {
        assert(s.subrange(0, k) =~= s);
        lemma_decimal_nonnegative(s);
    } else {
        let next = s.subrange(0, k + 1);
        assert(next.drop_last() =~= s.subrange(0, k));
        lemma_decimal_nonnegative(s.subrange(0, k));
        lemma_decimal_grows(s, k + 1);
    }
}

/// A row of digits spells no negative number.
proof fn lemma_decimal_nonnegative(s: Seq<u8>)
    requires
        forall|i: int| 0 <= i < s.len() ==> 0x30 <= #[trigger] s[i] <= 0x39,
    ensures
        decimal_value(s) >= 0,
    decreases s.len(),
{
    if s.len() > 0 {
        lemma_decimal_nonnegative(s.drop_last());
    }
}

/// Reads a decimal number of at most `max`.
pub fn parse_decimal(text: &[u8], max: u32) -> (out: Option<u32>)
    ensures
        out matches Some(v) ==> parsed(text@, max as int) == Some(v as int),
        out is None ==> parsed(text@, max as int) is None,
{
    if text.len() == 0 {
        return None;
    }
    let mut value: u64 = 0;
    let mut i: usize = 0;
    while i < text.len()
        invariant
            i <= text@.len(),
            forall|j: int| 0 <= j < i ==> 0x30 <= #[trigger] text@[j] <= 0x39,
            value == decimal_value(text@.subrange(0, i as int)),
            value <= max,
        decreases text@.len() - i,
    {
        let c = text[i];
        if c < 0x30 || c > 0x39 {
            return None;
        }
        let next: u64 = value * 10 + (c - 0x30) as u64;
        proof {
            assert(text@.subrange(0, i + 1).drop_last() =~= text@.subrange(0, i as int));
        }
        if next > max as u64 {
            proof {
                if is_digits(text@) {
                    lemma_decimal_grows(text@, i + 1);
                }
            }
            return None;
        }
        value = next;
        i += 1;
    }
    assert(text@.subrange(0, i as int) =~= text@);
    Some(value as u32)
}

/// The number of a setting, as its capture gives it: a decimal number of
/// at most `max`.
pub open spec fn number_of(capture: Option<Seq<u8>>, max: int, which: Setting) -> Result<
    int,
    ConfigError,
> {
    match capture {
        None => Err(ConfigError::Missing(which)),
        Some(text) => match parsed(text, max) {
            Some(v) => Ok(v),
            None => Err(ConfigError::Invalid(which)),
        },
    }
}

/// The gray level of a colour setting, as its capture gives it: the byte
/// that its first two hexadecimal digits spell.
pub open spec fn color_of(capture: Option<Seq<u8>>, which: Setting) -> Result<u8, ConfigError> {
    match capture {
        None => Err(ConfigError::Missing(which)),
        Some(text) => if is_hex(text) && text.len() >= 2 {
            Ok(hex_bytes(text)[0])
        } else {
            Err(ConfigError::Invalid(which))
        },
    }
}

/// The settings that seven captures give, or their first defect. A setting
/// that is missing, or whose value is no number of its field, is looked for
/// in the order chunk size, main colour, back colour, scaling, delay
/// numerator, delay denominator, border. Where all seven have a value, two
/// equal colours are looked for, then a chunk size of zero, then a scaling
/// of zero.
pub open spec fn settings_of(
    chunk_size: Option<Seq<u8>>,
    main_color: Option<Seq<u8>>,
    back_color: Option<Seq<u8>>,
    scaling: Option<Seq<u8>>,
    fps_nom: Option<Seq<u8>>,
    fps_den: Option<Seq<u8>>,
    border: Option<Seq<u8>>,
) -> Result<Constants, ConfigError> {
    let chunk_size = number_of(chunk_size, u16::MAX as int, Setting::ChunkSize);
    let main_color = color_of(main_color, Setting::MainColor);
    let back_color = color_of(back_color, Setting::BackColor);
    let scaling = number_of(scaling, i32::MAX as int, Setting::Scaling);
    let fps_nom = number_of(fps_nom, u16::MAX as int, Setting::FpsNom);
    let fps_den = number_of(fps_den, u16::MAX as int, Setting::FpsDen);
    let border = number_of(border, i32::MAX as int, Setting::Border);
    if chunk_size is Err {
        Err(chunk_size->Err_0)
    } else if main_color is Err {
        Err(main_color->Err_0)
    } else if back_color is Err {
        Err(back_color->Err_0)
    } else if scaling is Err {
        Err(scaling->Err_0)
    } else if fps_nom is Err {
        Err(fps_nom->Err_0)
    } else if fps_den is Err {
        Err(fps_den->Err_0)
    } else if border is Err {
        Err(border->Err_0)
    } else if main_color->Ok_0 == back_color->Ok_0 {
        Err(ConfigError::IdenticalColors(main_color->Ok_0))
    } else if chunk_size->Ok_0 == 0 {
        Err(ConfigError::Invalid(Setting::ChunkSize))
    } else if scaling->Ok_0 == 0 {
        Err(ConfigError::Invalid(Setting::Scaling))
    } else {
        Ok(
            Constants {
                chunk_size: chunk_size->Ok_0 as u16,
                main_color: main_color->Ok_0,
                back_color: back_color->Ok_0,
                scaling: scaling->Ok_0 as i32,
                fps_nom: fps_nom->Ok_0 as u16,
                fps_den: fps_den->Ok_0 as u16,
                border: border->Ok_0 as i32,
            },
        )
    }
}

/// Reads the number of a setting from its capture.
fn read_number(capture: &Option<Vec<u8>>, max: u32, which: Setting) -> (out: Result<
    u32,
    ConfigError,
>)
    ensures
        out matches Ok(v) ==> number_of(capture_view(*capture), max as int, which) == Ok::<
            int,
            ConfigError,
        >(v as int),
        out matches Err(e) ==> number_of(capture_view(*capture), max as int, which) == Err::<
            int,
            ConfigError,
        >(e),
{
    match capture {
        None => Err(ConfigError::Missing(which)),
        Some(text) => match parse_decimal(text.as_slice(), max) {
            Some(v) => Ok(v),
            None => Err(ConfigError::Invalid(which)),
        },
    }
}

/// Reads the gray level of a colour setting from its capture.
fn read_color(capture: &Option<Vec<u8>>, which: Setting) -> (out: Result<u8, ConfigError>)
    ensures
        out == color_of(capture_view(*capture), which),
{
    match capture {
        None => Err(ConfigError::Missing(which)),
        Some(text) => match hex_decode(text.as_slice()) {
            Ok(bytes) => if bytes.len() >= 1 {
                Ok(bytes[0])
            } else {
                Err(ConfigError::Invalid(which))
            },
            Err(_) => Err(ConfigError::Invalid(which)),
        },
    }
}

/// Builds the settings from what a settings file holds for each of them.
pub fn constants_from_captures(
    chunk_size: Option<Vec<u8>>,
    main_color: Option<Vec<u8>>,
    back_color: Option<Vec<u8>>,
    scaling: Option<Vec<u8>>,
    fps_nom: Option<Vec<u8>>,
    fps_den: Option<Vec<u8>>,
    border: Option<Vec<u8>>,
) -> (out: Result<Constants, ConfigError>)
    ensures
        out == settings_of(
            capture_view(chunk_size),
            capture_view(main_color),
            capture_view(back_color),
            capture_view(scaling),
            capture_view(fps_nom),
            capture_view(fps_den),
            capture_view(border),
        ),
        out matches Ok(c) ==> c.well_formed(),
{
    let chunk_size = match read_number(&chunk_size, 0xffff, Setting::ChunkSize) {
        Ok(v) => v as u16,
        Err(e) => return Err(e),
    };
    let main_color = match read_color(&main_color, Setting::MainColor) {
        Ok(v) => v,
        Err(e) => return Err(e),
    };
    let back_color = match read_color(&back_color, Setting::BackColor) {
        Ok(v) => v,
        Err(e) => return Err(e),
    };
    let scaling = match read_number(&scaling, 0x7fff_ffff, Setting::Scaling) {
        Ok(v) => v as i32,
        Err(e) => return Err(e),
    };
    let fps_nom = match read_number(&fps_nom, 0xffff, Setting::FpsNom) {
        Ok(v) => v as u16,
        Err(e) => return Err(e),
    };
    let fps_den = match read_number(&fps_den, 0xffff, Setting::FpsDen) {
        Ok(v) => v as u16,
        Err(e) => return Err(e),
    };
    let border = match read_number(&border, 0x7fff_ffff, Setting::Border) {
        Ok(v) => v as i32,
        Err(e) => return Err(e),
    };
    if main_color == back_color {
        return Err(ConfigError::IdenticalColors(main_color));
    }
    if chunk_size == 0 {
        return Err(ConfigError::Invalid(Setting::ChunkSize));
    }
    if scaling == 0 {
        return Err(ConfigError::Invalid(Setting::Scaling));
    }
    Ok(Constants { chunk_size, main_color, back_color, scaling, fps_nom, fps_den, border })
}

/// The settings that the text of a settings file gives.
pub open spec fn settings_in(text: Seq<char>) -> Result<Constants, ConfigError> {
    settings_of(
        setting_capture(Setting::ChunkSize, text),
        setting_capture(Setting::MainColor, text),
        setting_capture(Setting::BackColor, text),
        setting_capture(Setting::Scaling, text),
        setting_capture(Setting::FpsNom, text),
        setting_capture(Setting::FpsDen, text),
        setting_capture(Setting::Border, text),
    )
}

/// Reads the settings from the text of a settings file.
pub fn set_constants(contents: &str) -> (out: Result<Constants, ConfigError>)
    ensures
        out == settings_in(contents@),
        out matches Ok(c) ==> c.well_formed(),
{
    constants_from_captures(
        capture_setting(Setting::ChunkSize, contents),
        capture_setting(Setting::MainColor, contents),
        capture_setting(Setting::BackColor, contents),
        capture_setting(Setting::Scaling, contents),
        capture_setting(Setting::FpsNom, contents),
        capture_setting(Setting::FpsDen, contents),
        capture_setting(Setting::Border, contents),
    )
}

} // verus!
