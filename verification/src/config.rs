//! Settings of the blink reminder: the values a configuration file may set,
//! the values given on the command line, their precedence and defaults, and
//! the parsing of colours such as `#ff0000`.

use vstd::prelude::*;
use crate::text::{
    all_digits, chars_of, digit_value, digits_value, lemma_leading_zeros, lemma_number_text,
    number_text, padded_number_text, parse_unsigned, parse_unsigned_chars, push_number,
    push_padded_number, unsigned_digits,
};

verus! {

/// Seconds between two blinks when nothing else is configured.
pub const DEFAULT_SLEEP_SECS: u64 = 4 * 60;

/// Frames per eyelid sweep when nothing else is configured.
pub const DEFAULT_ANIMATION_FRAMES: u32 = 20;

/// Eyelid colour (`0xRRGGBB`) when nothing else is configured.
pub const DEFAULT_COLOR: u32 = 0x000000;

/// The largest colour value: three 8-bit channels.
pub const MAX_COLOR: u32 = 0xFFFFFF;

/// `s` without its leading `#` characters, however many there are.
pub open spec fn trim_leading_hashes(s: Seq<char>) -> Seq<char>
    decreases s.len(),
{
    if s.len() > 0 && s[0] == '#' {
        trim_leading_hashes(s.drop_first())
    } else {
        s
    }
}

/// What `parse_color` gives for the text `s`: the leading `#`s are dropped,
/// the rest must be a hexadecimal `u32`, and the value at most `0xFFFFFF`.
pub open spec fn spec_parse_color(s: Seq<char>) -> Option<u32> {
    match parse_unsigned(trim_leading_hashes(s), 16, u32::MAX as nat) {
        Some(v) => if v <= MAX_COLOR {
            Some(v as u32)
        } else {
            None
        },
        None => None,
    }
}

/// Parses a colour given as hexadecimal `RRGGBB`, with any number of leading `#`.
pub fn parse_color(s: &str) -> (res: Option<u32>)
    ensures
        res == spec_parse_color(s@),
{
    let cs = chars_of(s);
    let n = cs.len();
    let mut k: usize = 0;
    assert(cs@.skip(0) =~= cs@);
    while k < n && cs[k] == '#'
        invariant
            n == cs@.len(),
            0 <= k <= n,
            trim_leading_hashes(cs@) == trim_leading_hashes(cs@.skip(k as int)),
        decreases n - k,
    {
        assert(cs@.skip(k as int).drop_first() =~= cs@.skip(k + 1));
        k = k + 1;
    }
    let rest = &cs.as_slice()[k..n];
    assert(rest@ =~= cs@.skip(k as int));
    assert(trim_leading_hashes(cs@.skip(k as int)) == cs@.skip(k as int));
    match parse_unsigned_chars(rest, 16, 0xFFFF_FFFF) {
        Some(v) => if v <= 0xFF_FFFF {
            Some(v as u32)
        } else {
            None
        },
        None => None,
    }
}


/// The three settings as mathematical values: each one is set or left open.
pub struct Settings {
    pub sleep_secs: Option<u64>,
    pub animation_frames: Option<u32>,
    pub color: Option<Seq<char>>,
}

/// The text of an optional string.
pub open spec fn opt_text(s: Option<String>) -> Option<Seq<char>> {
    match s {
        Some(t) => Some(t@),
        None => None,
    }
}

/// `over` where it is set, `base` otherwise.
pub open spec fn overridden<T>(base: Option<T>, over: Option<T>) -> Option<T> {
    if over is Some {
        over
    } else {
        base
    }
}

/// `base` with every setting that `over` sets replaced by it.
pub open spec fn apply_settings(base: Settings, over: Settings) -> Settings {
    Settings {
        sleep_secs: overridden(base.sleep_secs, over.sleep_secs),
        animation_frames: overridden(base.animation_frames, over.animation_frames),
        color: overridden(base.color, over.color),
    }
}

/// No setting given.
pub open spec fn no_settings() -> Settings {
    Settings { sleep_secs: None, animation_frames: None, color: None }
}

/// The pause between blinks that `s` amounts to.
pub open spec fn effective_sleep_secs(s: Settings) -> u64 {
    match s.sleep_secs {
        Some(v) => v,
        None => DEFAULT_SLEEP_SECS,
    }
}

/// The number of frames per sweep that `s` amounts to.
pub open spec fn effective_animation_frames(s: Settings) -> u32 {
    match s.animation_frames {
        Some(v) => v,
        None => DEFAULT_ANIMATION_FRAMES,
    }
}

/// The colour that `s` amounts to: a colour text that does not parse gives the default.
pub open spec fn effective_color(s: Settings) -> u32 {
    match s.color {
        Some(t) => match spec_parse_color(t) {
            Some(v) => v,
            None => DEFAULT_COLOR,
        },
        None => DEFAULT_COLOR,
    }
}

/// Settings read from the configuration file; a missing entry is `None`.
pub struct Config {
    pub sleep_secs: Option<u64>,
    pub animation_frames: Option<u32>,
    pub color: Option<String>,
}

/// Settings given on the command line; they win over the configuration file.
pub struct CliOverrides {
    pub sleep_secs: Option<u64>,
    pub animation_frames: Option<u32>,
    pub color: Option<String>,
}

impl View for Config {
    type V = Settings;

    open spec fn view(&self) -> Settings {
        Settings {
            sleep_secs: self.sleep_secs,
            animation_frames: self.animation_frames,
            color: opt_text(self.color),
        }
    }
}

impl View for CliOverrides {
    type V = Settings;

    open spec fn view(&self) -> Settings {
        Settings {
            sleep_secs: self.sleep_secs,
            animation_frames: self.animation_frames,
            color: opt_text(self.color),
        }
    }
}

impl Default for Config {
    fn default() -> (res: Self)
        ensures
            res@ == no_settings(),
    {
        Config { sleep_secs: None, animation_frames: None, color: None }
    }
}

impl Default for CliOverrides {
    fn default() -> (res: Self)
        ensures
            res@ == no_settings(),
    {
        CliOverrides { sleep_secs: None, animation_frames: None, color: None }
    }
}

impl Config {
    /// Replaces every setting that `overrides` gives; the others stay.
    pub fn apply_overrides(&mut self, overrides: &CliOverrides)
        ensures
            final(self)@ == apply_settings(old(self)@, overrides@),
    {
        if let Some(v) = overrides.sleep_secs {
            self.sleep_secs = Some(v);
        }
        if let Some(v) = overrides.animation_frames {
            self.animation_frames = Some(v);
        }
        match &overrides.color {
            Some(v) => {
                self.color = Some(v.clone());
            },
            None => {},
        }
    }

    /// Seconds between blinks: the configured value or `DEFAULT_SLEEP_SECS`.
    pub fn sleep_secs(&self) -> (res: u64)
        ensures
            res == effective_sleep_secs(self@),
    {
        match self.sleep_secs {
            Some(v) => v,
            None => DEFAULT_SLEEP_SECS,
        }
    }

    /// Frames per eyelid sweep: the configured value or `DEFAULT_ANIMATION_FRAMES`.
    pub fn animation_frames(&self) -> (res: u32)
        ensures
            res == effective_animation_frames(self@),
    {
        match self.animation_frames {
            Some(v) => v,
            None => DEFAULT_ANIMATION_FRAMES,
        }
    }

    /// The eyelid colour: the configured colour if it parses, `DEFAULT_COLOR` otherwise.
    pub fn color(&self) -> (res: u32)
        ensures
            res == effective_color(self@),
            res <= MAX_COLOR,
            self.color is Some && spec_parse_color(self.color->0@) is Some ==> res
                == spec_parse_color(self.color->0@)->0,
            self.color is Some && spec_parse_color(self.color->0@) is None ==> res
                == DEFAULT_COLOR,
            self.color is None ==> res == DEFAULT_COLOR,
    {
        match &self.color {
            Some(s) => match parse_color(s.as_str()) {
                Some(v) => v,
                None => DEFAULT_COLOR,
            },
            None => DEFAULT_COLOR,
        }
    }
}


/// The line that announces the settings in effect: the pause and the frame
/// count in decimal, the colour as `#` and six upper-case hexadecimal digits.
pub open spec fn summary_text(s: Settings) -> Seq<char> {
    "augenblick: blink every "@ + number_text(effective_sleep_secs(s) as nat, 10)
        + " seconds, animation "@ + number_text(effective_animation_frames(s) as nat, 10)
        + " frames, color #"@ + padded_number_text(effective_color(s) as nat, 16, 6)
}

/// Where the configuration file lies for the home directory `home`.
pub open spec fn config_path_text(home: Seq<char>) -> Seq<char> {
    home + "/.config/augenblick/augenblick.toml"@
}

/// The path of the configuration file under the home directory `home`.
pub fn default_config_path(home: &str) -> (res: String)
    ensures
        res@ == config_path_text(home@),
{
    let mut res = String::from_str(home);
    res.append("/.config/augenblick/augenblick.toml");
    res
}

impl Config {
    /// The line that announces the settings in effect.
    pub fn summary(&self) -> (res: String)
        ensures
            res@ == summary_text(self@),
    {
        let mut res = String::from_str("augenblick: blink every ");
        push_number(&mut res, self.sleep_secs(), 10);
        res.append(" seconds, animation ");
        push_number(&mut res, self.animation_frames() as u64, 10);
        res.append(" frames, color #");
        push_padded_number(&mut res, self.color() as u64, 16, 6);
        res
    }
}

/// A colour written as `#` and six hexadecimal digits, as the settings line
/// shows it, parses back to the same colour.
pub proof fn law_color_text_round_trip(c: u32)
    requires
        c <= MAX_COLOR,
    ensures
        spec_parse_color(seq!['#'] + padded_number_text(c as nat, 16, 6)) == Some(c),
{
    let t = padded_number_text(c as nat, 16, 6);
    let n = number_text(c as nat, 16);
    let zeros: nat = if 6 > n.len() {
        (6 - n.len()) as nat
    } else {
        0
    };
    lemma_number_text(c as nat, 16);
    lemma_leading_zeros(zeros, n, 16);
    assert(t == Seq::new(zeros, |i: int| '0') + n);
    assert(t.len() > 0);
    assert(digit_value(t[0], 16) is Some);
    assert(t[0] != '#' && t[0] != '+');
    assert((seq!['#'] + t).drop_first() =~= t);
    assert(trim_leading_hashes(seq!['#'] + t) == trim_leading_hashes(t));
    assert(trim_leading_hashes(t) == t);
    assert(unsigned_digits(t) == t);
    assert(digits_value(t, 16) == c);
}

/// `c` in lower case, if it is an ASCII letter.
pub open spec fn ascii_lower(c: char) -> char {
    if 'A' <= c && c <= 'Z' {
        (c as int + 32) as char
    } else {
        c
    }
}

/// `c` in upper case, if it is an ASCII letter.
pub open spec fn ascii_upper(c: char) -> char {
    if 'a' <= c && c <= 'z' {
        (c as int - 32) as char
    } else {
        c
    }
}

/// Two texts that read the same as colours character by character: the
/// same length, `#` and `+` at the same places, and the same hexadecimal digit
/// (or none) at each place.
pub open spec fn same_hex_reading(s: Seq<char>, t: Seq<char>) -> bool {
    &&& s.len() == t.len()
    &&& forall|i: int|
        0 <= i < s.len() ==> {
            &&& (s[i] == '#') == (t[i] == '#')
            &&& (s[i] == '+') == (t[i] == '+')
            &&& digit_value(s[i], 16) == digit_value(t[i], 16)
        }
}

/// Texts that read the same character by character give the same colour.
proof fn lemma_same_hex_reading(s: Seq<char>, t: Seq<char>)
    requires
        same_hex_reading(s, t),
    ensures
        spec_parse_color(s) == spec_parse_color(t),
{
    lemma_trim_same_reading(s, t);
    let a = trim_leading_hashes(s);
    let b = trim_leading_hashes(t);
    let da = unsigned_digits(a);
    let db = unsigned_digits(b);
    if a.len() > 1 && a[0] == '+' {
        assert(b[0] == '+');
        assert(same_hex_reading(da, db)) by {
            assert forall|i: int| 0 <= i < da.len() implies {
                &&& (da[i] == '#') == (db[i] == '#')
                &&& (da[i] == '+') == (db[i] == '+')
                &&& digit_value(da[i], 16) == digit_value(db[i], 16)
            } by {
                assert(da[i] == a[i + 1] && db[i] == b[i + 1]);
            }
        }
    } else {
        if b.len() > 1 {
            assert((a[0] == '+') == (b[0] == '+'));
        }
    }
    lemma_digits_same_reading(da, db);
}

/// Dropping leading `#`s keeps two texts reading the same.
proof fn lemma_trim_same_reading(s: Seq<char>, t: Seq<char>)
    requires
        same_hex_reading(s, t),
    ensures
        same_hex_reading(trim_leading_hashes(s), trim_leading_hashes(t)),
    decreases s.len(),
{
    if s.len() > 0 && s[0] == '#' {
        assert(t[0] == '#');
        let s1 = s.drop_first();
        let t1 = t.drop_first();
        assert forall|i: int| 0 <= i < s1.len() implies {
            &&& (s1[i] == '#') == (t1[i] == '#')
            &&& (s1[i] == '+') == (t1[i] == '+')
            &&& digit_value(s1[i], 16) == digit_value(t1[i], 16)
        } by {
            assert(s1[i] == s[i + 1] && t1[i] == t[i + 1]);
        }
        lemma_trim_same_reading(s1, t1);
    } else if t.len() > 0 {
        assert((s[0] == '#') == (t[0] == '#'));
    }
}

/// Runs of digits that read the same have the same value.
proof fn lemma_digits_same_reading(s: Seq<char>, t: Seq<char>)
    requires
        same_hex_reading(s, t),
    ensures
        all_digits(s, 16) == all_digits(t, 16),
        digits_value(s, 16) == digits_value(t, 16),
    decreases s.len(),
{
    if !all_digits(s, 16) {
        let i = choose|i: int| 0 <= i < s.len() && !(digit_value(s[i], 16) is Some);
        assert(!(digit_value(t[i], 16) is Some));
    }
    if !all_digits(t, 16) {
        let i = choose|i: int| 0 <= i < t.len() && !(digit_value(t[i], 16) is Some);
        assert(!(digit_value(s[i], 16) is Some));
    }
    if s.len() > 0 {
        let s1 = s.drop_last();
        let t1 = t.drop_last();
        assert forall|i: int| 0 <= i < s1.len() implies {
            &&& (s1[i] == '#') == (t1[i] == '#')
            &&& (s1[i] == '+') == (t1[i] == '+')
            &&& digit_value(s1[i], 16) == digit_value(t1[i], 16)
        } by {
            assert(s1[i] == s[i] && t1[i] == t[i]);
        }
        lemma_digits_same_reading(s1, t1);
        assert(digit_value(s.last(), 16) == digit_value(t.last(), 16));
    }
}

/// Hexadecimal digits may be written in either case: a colour text reads the
/// same with its ASCII letters in lower case or in upper case.
pub proof fn law_parse_color_ignores_case(s: Seq<char>)
    ensures
        spec_parse_color(s.map_values(|c: char| ascii_lower(c))) == spec_parse_color(s),
        spec_parse_color(s.map_values(|c: char| ascii_upper(c))) == spec_parse_color(s),
{
    let l = s.map_values(|c: char| ascii_lower(c));
    let u = s.map_values(|c: char| ascii_upper(c));
    assert(same_hex_reading(l, s)) by {
        assert forall|i: int| 0 <= i < l.len() implies {
            &&& (l[i] == '#') == (s[i] == '#')
            &&& (l[i] == '+') == (s[i] == '+')
            &&& digit_value(l[i], 16) == digit_value(s[i], 16)
        } by {
            assert(l[i] == ascii_lower(s[i]));
        }
    }
    assert(same_hex_reading(u, s)) by {
        assert forall|i: int| 0 <= i < u.len() implies {
            &&& (u[i] == '#') == (s[i] == '#')
            &&& (u[i] == '+') == (s[i] == '+')
            &&& digit_value(u[i], 16) == digit_value(s[i], 16)
        } by {
            assert(u[i] == ascii_upper(s[i]));
        }
    }
    lemma_same_hex_reading(l, s);
    lemma_same_hex_reading(u, s);
}

/// A colour text that parses is used exactly as parsed: every channel is
/// kept. A text that does not parse, or no text, gives the default colour.
pub proof fn law_configured_color_is_used(s: Settings, t: Seq<char>)
    ensures
        spec_parse_color(t) is Some ==> effective_color(Settings { color: Some(t), ..s })
            == spec_parse_color(t)->0,
        spec_parse_color(t) is None ==> effective_color(Settings { color: Some(t), ..s })
            == DEFAULT_COLOR,
        effective_color(Settings { color: None, ..s }) == DEFAULT_COLOR,
{
}

/// Configuring a colour as `#` and six hexadecimal digits gives that very
/// colour, whatever its channels.
pub proof fn law_configured_hex_color(s: Settings, c: u32)
    requires
        c <= MAX_COLOR,
    ensures
        effective_color(
            Settings { color: Some(seq!['#'] + padded_number_text(c as nat, 16, 6)), ..s },
        ) == c,
{
    law_color_text_round_trip(c);
}

/// Command-line values win over configuration-file values: after applying
/// `overrides` to `config`, each effective setting is the command-line value
/// where one was given, and the configuration's effective setting otherwise.
pub proof fn law_overrides_win(config: Settings, overrides: Settings)
    ensures
        effective_sleep_secs(apply_settings(config, overrides)) == (match overrides.sleep_secs {
            Some(v) => v,
            None => effective_sleep_secs(config),
        }),
        effective_animation_frames(apply_settings(config, overrides)) == (
        match overrides.animation_frames {
            Some(v) => v,
            None => effective_animation_frames(config),
        }),
        effective_color(apply_settings(config, overrides)) == (match overrides.color {
            Some(t) => effective_color(Settings { color: Some(t), ..config }),
            None => effective_color(config),
        }),
{
}

/// Applying the same overrides a second time changes nothing.
pub proof fn law_apply_idempotent(config: Settings, overrides: Settings)
    ensures
        apply_settings(apply_settings(config, overrides), overrides) == apply_settings(
            config,
            overrides,
        ),
{
}

/// Applying overrides that give nothing leaves the settings as they are.
pub proof fn law_apply_nothing(config: Settings)
    ensures
        apply_settings(config, no_settings()) == config,
{
}

/// Applying two sets of overrides one after the other is applying the second
/// on top of the first at once: later values win.
pub proof fn law_apply_sequence(config: Settings, first: Settings, second: Settings)
    ensures
        apply_settings(apply_settings(config, first), second) == apply_settings(
            config,
            apply_settings(first, second),
        ),
{
}

/// With nothing configured, a blink comes every 240 seconds, a sweep takes
/// 20 frames and the eyelids are black.
pub proof fn law_defaults()
    ensures
        effective_sleep_secs(no_settings()) == 240,
        effective_animation_frames(no_settings()) == 20,
        effective_color(no_settings()) == 0,
{
}

/// A parsed colour never exceeds `0xFFFFFF`, so every effective colour fits in three channels.
pub proof fn law_color_in_range(s: Settings)
    ensures
        effective_color(s) <= MAX_COLOR,
        forall|t: Seq<char>| #[trigger] spec_parse_color(t) matches Some(v) ==> v <= MAX_COLOR,
{
}

/// Leading `#` characters make no difference to a colour.
pub proof fn law_parse_color_ignores_hash(t: Seq<char>)
    ensures
        spec_parse_color(seq!['#'] + t) == spec_parse_color(t),
{
    assert((seq!['#'] + t).drop_first() =~= t);
}

} // verus!
