pub mod chrome_131;
pub mod firefox_130;
pub mod safari_18;

use vstd::prelude::*;
use vstd::string::*;
use vstd::utf8::encode_utf8;
use crate::text::{
    chars_of, has_prefix, parse_unsigned, parse_unsigned_chars, seq_eq, split_chars, split_on,
    split_once, split_once_chars, starts_with, strip_chars, string_from_chars, trim, trim_chars,
    trim_quotes, Strip,
};

verus! {

pub const CHROME_131: &'static str = "chrome_131";
pub const FIREFOX_130: &'static str = "firefox_130";
pub const SAFARI_18: &'static str = "safari_18";

/// The shape of traffic that the tunnel imitates.
#[derive(Debug, Clone, PartialEq, Eq)]
pub struct StealthProfile {
    pub name: String,
    pub alpn: String,
    pub min_packet_size: u16,
    pub max_packet_size: u16,
    pub min_jitter_ms: u16,
    pub max_jitter_ms: u16,
    pub cipher_suites: Vec<u16>,
    pub extensions: Vec<u16>,
}

pub struct StealthProfileView {
    pub name: Seq<char>,
    pub alpn: Seq<char>,
    pub min_packet_size: u16,
    pub max_packet_size: u16,
    pub min_jitter_ms: u16,
    pub max_jitter_ms: u16,
    pub cipher_suites: Seq<u16>,
    pub extensions: Seq<u16>,
}

impl View for StealthProfile {
    type V = StealthProfileView;

    open spec fn view(&self) -> StealthProfileView {
        StealthProfileView {
            name: self.name@,
            alpn: self.alpn@,
            min_packet_size: self.min_packet_size,
            max_packet_size: self.max_packet_size,
            min_jitter_ms: self.min_jitter_ms,
            max_jitter_ms: self.max_jitter_ms,
            cipher_suites: self.cipher_suites@,
            extensions: self.extensions@,
        }
    }
}

pub open spec fn chrome_131_view() -> StealthProfileView {
    StealthProfileView {
        name: "chrome_131"@,
        alpn: "h2"@,
        min_packet_size: 900,
        max_packet_size: 1350,
        min_jitter_ms: 4,
        max_jitter_ms: 18,
        cipher_suites: seq![
            0x1301u16, 0x1302, 0x1303, 0xC02B, 0xC02F, 0xC02C, 0xC030, 0xCCA9, 0xCCA8, 0xC013,
            0xC014, 0x009C, 0x009D, 0x002F, 0x0035,
        ],
        extensions: seq![
            0x0000u16, 0x0017, 0xFF01, 0x000A, 0x000B, 0x0023, 0x0010, 0x0005, 0x000D, 0x0012,
            0x0033, 0x002D, 0x002B, 0x001B,
        ],
    }
}

pub open spec fn firefox_130_view() -> StealthProfileView {
    StealthProfileView {
        name: "firefox_130"@,
        alpn: "h2"@,
        min_packet_size: 820,
        max_packet_size: 1280,
        min_jitter_ms: 3,
        max_jitter_ms: 16,
        cipher_suites: seq![
            0x1301u16, 0x1303, 0x1302, 0xC02B, 0xC02F, 0xCCA9, 0xCCA8, 0xC02C, 0xC030, 0xC00A,
            0xC009, 0xC013, 0xC014, 0x009C, 0x009D, 0x002F, 0x0035,
        ],
        extensions: seq![
            0x0000u16, 0x0017, 0xFF01, 0x000A, 0x000B, 0x0023, 0x0010, 0x0005, 0x0022, 0x0033,
            0x002B, 0x000D, 0x002D, 0x001C, 0x001B,
        ],
    }
}

pub open spec fn safari_18_view() -> StealthProfileView {
    StealthProfileView {
        name: "safari_18"@,
        alpn: "h2"@,
        min_packet_size: 760,
        max_packet_size: 1240,
        min_jitter_ms: 5,
        max_jitter_ms: 22,
        cipher_suites: seq![0x1301u16, 0x1302, 0x1303, 0xC02C, 0xC02B, 0xC030, 0xC02F, 0xCCA9, 0xCCA8],
        extensions: seq![
            0x0000u16, 0xFF01, 0x000A, 0x000B, 0x0023, 0x0010, 0x0005, 0x0012, 0x0033, 0x002B,
            0x002D,
        ],
    }
}

/// The built-in profile of the given name.
pub open spec fn builtin_profile_view(name: Seq<char>) -> Option<StealthProfileView> {
    if name == "chrome_131"@ {
        Some(chrome_131_view())
    } else if name == "firefox_130"@ {
        Some(firefox_130_view())
    } else if name == "safari_18"@ {
        Some(safari_18_view())
    } else {
        None
    }
}

/// The number of bytes that `s` takes in UTF-8, which `str::len` gives.
pub open spec fn byte_len(s: Seq<char>) -> int {
    encode_utf8(s).len() as int
}

/// The first field of a profile that is out of range, in the order `validate` checks them.
pub open spec fn profile_invalid_field(p: StealthProfileView) -> Option<Seq<char>> {
    if trim(p.name).len() == 0 || byte_len(p.name) > 64 {
        Some("name"@)
    } else if trim(p.alpn).len() == 0 || byte_len(p.alpn) > 16 {
        Some("alpn"@)
    } else if !(64 <= p.min_packet_size <= 4096) {
        Some("min_packet_size"@)
    } else if p.max_packet_size < p.min_packet_size || p.max_packet_size > 4096 {
        Some("max_packet_size"@)
    } else if p.max_jitter_ms < p.min_jitter_ms || p.max_jitter_ms > 500 {
        Some("max_jitter_ms"@)
    } else {
        None
    }
}

/// Errors of profile loading, with the text each one names.
pub enum ProfileErrorView {
    UnknownBuiltinProfile(Seq<char>),
    ProfileOverrideReadFailed(Seq<char>),
    InvalidProfile(Seq<char>),
    InvalidOverrideKey(Seq<char>),
}

#[derive(Debug, Clone, PartialEq, Eq)]
pub enum ProfileError {
    UnknownBuiltinProfile { name: String },
    ProfileOverrideReadFailed { path: String },
    InvalidProfile { field: String },
    InvalidOverrideKey { key: String },
}

impl View for ProfileError {
    type V = ProfileErrorView;

    open spec fn view(&self) -> ProfileErrorView {
        match self {
            ProfileError::UnknownBuiltinProfile { name } => ProfileErrorView::UnknownBuiltinProfile(
                name@,
            ),
            ProfileError::ProfileOverrideReadFailed { path } => {
                ProfileErrorView::ProfileOverrideReadFailed(path@)
            },
            ProfileError::InvalidProfile { field } => ProfileErrorView::InvalidProfile(field@),
            ProfileError::InvalidOverrideKey { key } => ProfileErrorView::InvalidOverrideKey(key@),
        }
    }
}

fn invalid_profile(field: &str) -> (e: ProfileError)
    ensures
        e@ == ProfileErrorView::InvalidProfile(field@),
{
    ProfileError::InvalidProfile { field: String::from_str(field) }
}

impl StealthProfile {
    pub fn validate(&self) -> (r: Result<(), ProfileError>)
        ensures
            r is Ok <==> profile_invalid_field(self@) is None,
            r matches Err(e) ==> e@ == ProfileErrorView::InvalidProfile(
                profile_invalid_field(self@)->0,
            ),
    {
        let name = chars_of(self.name.as_str());
        if trim_chars(&name).len() == 0 || self.name.as_str().as_bytes().len() > 64 {
            return Err(invalid_profile("name"));
        }
        let alpn = chars_of(self.alpn.as_str());
        if trim_chars(&alpn).len() == 0 || self.alpn.as_str().as_bytes().len() > 16 {
            return Err(invalid_profile("alpn"));
        }
        if !(64 <= self.min_packet_size && self.min_packet_size <= 4096) {
            return Err(invalid_profile("min_packet_size"));
        }
        if self.max_packet_size < self.min_packet_size || self.max_packet_size > 4096 {
            return Err(invalid_profile("max_packet_size"));
        }
        if self.max_jitter_ms < self.min_jitter_ms || self.max_jitter_ms > 500 {
            return Err(invalid_profile("max_jitter_ms"));
        }
        Ok(())
    }
}

/// Whether a built-in profile has this name.
pub fn is_builtin_profile(name: &str) -> (r: bool)
    ensures
        r == builtin_profile_view(name@) is Some,
{
    builtin_profile(name).is_some()
}

/// The built-in profile of this name.
pub fn builtin_profile(name: &str) -> (r: Option<StealthProfile>)
    ensures
        r is Some <==> builtin_profile_view(name@) is Some,
        r matches Some(p) ==> p@ == builtin_profile_view(name@)->0,
{
    let n = chars_of(name);
    builtin_profile_chars(&n)
}

fn builtin_profile_chars(name: &[char]) -> (r: Option<StealthProfile>)
    ensures
        r is Some <==> builtin_profile_view(name@) is Some,
        r matches Some(p) ==> p@ == builtin_profile_view(name@)->0,
{
    if seq_eq(name, &chars_of(CHROME_131)) {
        Some(chrome_131::profile())
    } else if seq_eq(name, &chars_of(FIREFOX_130)) {
        Some(firefox_130::profile())
    } else if seq_eq(name, &chars_of(SAFARI_18)) {
        Some(safari_18::profile())
    } else {
        None
    }
}

/// The profile that an override starts from: the built-in one of that name, or a plain one.
pub open spec fn override_base(name: Seq<char>) -> StealthProfileView {
    match builtin_profile_view(name) {
        Some(p) => p,
        None => StealthProfileView {
            name: name,
            alpn: "h2"@,
            min_packet_size: 768,
            max_packet_size: 1280,
            min_jitter_ms: 2,
            max_jitter_ms: 20,
            cipher_suites: Seq::empty(),
            extensions: Seq::empty(),
        },
    }
}

/// A numeric override field, read as `u16`.
pub open spec fn override_u16(value: Seq<char>, field: Seq<char>) -> Result<u16, ProfileErrorView> {
    match parse_unsigned(value, 65535) {
        Some(v) => Ok(v as u16),
        None => Err(ProfileErrorView::InvalidProfile(field)),
    }
}

/// The effect of one line of an override on the profile.
pub open spec fn apply_override_line(p: StealthProfileView, raw: Seq<char>) -> Result<
    StealthProfileView,
    ProfileErrorView,
> {
    let line = trim(raw);
    if line.len() == 0 || starts_with(line, "#"@) {
        Ok(p)
    } else {
        match split_once(line, '=') {
            None => Err(ProfileErrorView::InvalidProfile("override_line_format"@)),
            Some((k, v)) => {
                let key = trim(k);
                let value = trim_quotes(trim(v));
                if key == "name"@ {
                    Ok(StealthProfileView { name: value, ..p })
                } else if key == "alpn"@ {
                    Ok(StealthProfileView { alpn: value, ..p })
                } else if key == "min_packet_size"@ {
                    match override_u16(value, key) {
                        Ok(x) => Ok(StealthProfileView { min_packet_size: x, ..p }),
                        Err(e) => Err(e),
                    }
                } else if key == "max_packet_size"@ {
                    match override_u16(value, key) {
                        Ok(x) => Ok(StealthProfileView { max_packet_size: x, ..p }),
                        Err(e) => Err(e),
                    }
                } else if key == "min_jitter_ms"@ {
                    match override_u16(value, key) {
                        Ok(x) => Ok(StealthProfileView { min_jitter_ms: x, ..p }),
                        Err(e) => Err(e),
                    }
                } else if key == "max_jitter_ms"@ {
                    match override_u16(value, key) {
                        Ok(x) => Ok(StealthProfileView { max_jitter_ms: x, ..p }),
                        Err(e) => Err(e),
                    }
                } else {
                    Err(ProfileErrorView::InvalidOverrideKey(key))
                }
            },
        }
    }
}

/// The effect of a sequence of override lines, stopping at the first error.
pub open spec fn apply_override_lines(p: StealthProfileView, lines: Seq<Seq<char>>) -> Result<
    StealthProfileView,
    ProfileErrorView,
>
    decreases lines.len(),
{
    if lines.len() == 0 {
        Ok(p)
    } else {
        match apply_override_line(p, lines[0]) {
            Ok(q) => apply_override_lines(q, lines.drop_first()),
            Err(e) => Err(e),
        }
    }
}

/// A line `key = value` stores what it reads: a name or ALPN as written, a numeric field as
/// the number that its value reads as (refused when it reads as none below 65536), leaving
/// every other field as it was; any other key is refused.
pub proof fn lemma_override_line_stores_value(
    p: StealthProfileView,
    raw: Seq<char>,
    k: Seq<char>,
    v: Seq<char>,
)
    requires
        trim(raw).len() > 0,
        !starts_with(trim(raw), "#"@),
        split_once(trim(raw), '=') == Some((k, v)),
    ensures
        ({
            let key = trim(k);
            let value = trim_quotes(trim(v));
            let r = apply_override_line(p, raw);
            &&& key == "name"@ ==> (r matches Ok(q) && q.name == value && q.alpn == p.alpn
                && q.min_packet_size == p.min_packet_size && q.max_packet_size == p.max_packet_size
                && q.min_jitter_ms == p.min_jitter_ms && q.max_jitter_ms == p.max_jitter_ms)
            &&& key == "alpn"@ ==> (r matches Ok(q) && q.alpn == value && q.name == p.name
                && q.min_packet_size == p.min_packet_size && q.max_packet_size == p.max_packet_size
                && q.min_jitter_ms == p.min_jitter_ms && q.max_jitter_ms == p.max_jitter_ms)
            &&& (key == "min_packet_size"@ || key == "max_packet_size"@ || key == "min_jitter_ms"@
                || key == "max_jitter_ms"@) ==> match parse_unsigned(value, 65535) {
                Some(n) => (r matches Ok(q) && q.name == p.name && q.alpn == p.alpn
                    && q.min_packet_size == (if key == "min_packet_size"@ {
                    n as u16
                } else {
                    p.min_packet_size
                }) && q.max_packet_size == (if key == "max_packet_size"@ {
                    n as u16
                } else {
                    p.max_packet_size
                }) && q.min_jitter_ms == (if key == "min_jitter_ms"@ {
                    n as u16
                } else {
                    p.min_jitter_ms
                }) && q.max_jitter_ms == (if key == "max_jitter_ms"@ {
                    n as u16
                } else {
                    p.max_jitter_ms
                })),
                None => r == Err::<StealthProfileView, ProfileErrorView>(
                    ProfileErrorView::InvalidProfile(key),
                ),
            }
            &&& !(key == "name"@ || key == "alpn"@ || key == "min_packet_size"@ || key
                == "max_packet_size"@ || key == "min_jitter_ms"@ || key == "max_jitter_ms"@)
                ==> r == Err::<StealthProfileView, ProfileErrorView>(
                ProfileErrorView::InvalidOverrideKey(key),
            )
        }),
{
    reveal_strlit("name");
    reveal_strlit("alpn");
    reveal_strlit("min_packet_size");
    reveal_strlit("max_packet_size");
    reveal_strlit("min_jitter_ms");
    reveal_strlit("max_jitter_ms");
    assert("name"@[0] != "alpn"@[0]);
    assert("min_packet_size"@[1] != "max_packet_size"@[1]);
    assert("min_jitter_ms"@[1] != "max_jitter_ms"@[1]);
    assert("min_jitter_ms"@.len() != "min_packet_size"@.len());
    assert("min_jitter_ms"@ != "min_packet_size"@ && "min_jitter_ms"@ != "max_packet_size"@);
    assert("max_jitter_ms"@.len() != "max_packet_size"@.len());
    assert("max_jitter_ms"@ != "min_packet_size"@ && "max_jitter_ms"@ != "max_packet_size"@);
    assert("min_jitter_ms"@ != "name"@ && "min_jitter_ms"@ != "alpn"@);
    assert("max_jitter_ms"@ != "name"@ && "max_jitter_ms"@ != "alpn"@);
    assert("min_packet_size"@ != "name"@ && "min_packet_size"@ != "alpn"@);
    assert("max_packet_size"@ != "name"@ && "max_packet_size"@ != "alpn"@);
}

/// Applying lines one after another: the effect of all but the last, then that of the last.
pub proof fn lemma_override_lines_last(p: StealthProfileView, lines: Seq<Seq<char>>)
    requires
        lines.len() > 0,
    ensures
        apply_override_lines(p, lines) == match apply_override_lines(p, lines.drop_last()) {
            Ok(q) => apply_override_line(q, lines.last()),
            Err(e) => Err(e),
        },
    decreases lines.len(),
{
    if lines.len() == 1 {
        assert(lines.drop_first().len() == 0);
        assert(lines.drop_last().len() == 0);
        assert(lines.last() == lines[0]);
        match apply_override_line(p, lines[0]) {
            Ok(q) => {
                assert(apply_override_lines(q, lines.drop_first()) == Ok::<
                    StealthProfileView,
                    ProfileErrorView,
                >(q));
            },
            Err(e) => {},
        }
        assert(apply_override_lines(p, lines.drop_last()) == Ok::<
            StealthProfileView,
            ProfileErrorView,
        >(p));
    } else {
        let df = lines.drop_first();
        let dl = lines.drop_last();
        assert(df.drop_last() =~= dl.drop_first());
        assert(df.last() == lines.last());
        assert(dl[0] == lines[0]);
        assert(dl.len() > 0);
        assert(apply_override_lines(p, dl) == match apply_override_line(p, dl[0]) {
            Ok(q) => apply_override_lines(q, dl.drop_first()),
            Err(e) => Err(e),
        });
        match apply_override_line(p, lines[0]) {
            Ok(q) => {
                lemma_override_lines_last(q, df);
            },
            Err(e) => {},
        }
    }
}

/// When the last line of an override sets a numeric field to a number, a profile that loads
/// from that override has that number in that field.
pub proof fn lemma_last_numeric_override_wins(
    name: Seq<char>,
    source: Seq<char>,
    k: Seq<char>,
    v: Seq<char>,
    n: nat,
)
    requires
        split_on(source, '\n').len() > 0,
        trim(split_on(source, '\n').last()).len() > 0,
        !starts_with(trim(split_on(source, '\n').last()), "#"@),
        split_once(trim(split_on(source, '\n').last()), '=') == Some((k, v)),
        parse_unsigned(trim_quotes(trim(v)), 65535) == Some(n),
    ensures
        load_profile_spec(name, Some(source)) matches Ok(q) ==> {
            &&& trim(k) == "min_packet_size"@ ==> q.min_packet_size == n
            &&& trim(k) == "max_packet_size"@ ==> q.max_packet_size == n
            &&& trim(k) == "min_jitter_ms"@ ==> q.min_jitter_ms == n
            &&& trim(k) == "max_jitter_ms"@ ==> q.max_jitter_ms == n
        },
{
    let lines = split_on(source, '\n');
    let base = override_base(name);
    lemma_override_lines_last(base, lines);
    if let Ok(q0) = apply_override_lines(base, lines.drop_last()) {
        lemma_override_line_stores_value(q0, lines.last(), k, v);
    }
}

/// The profile that an override source describes.
pub open spec fn parse_override_spec(name: Seq<char>, source: Seq<char>) -> Result<
    StealthProfileView,
    ProfileErrorView,
> {
    apply_override_lines(override_base(name), split_on(source, '\n'))
}

/// What `load_profile` gives: the override or the built-in profile, then validated.
pub open spec fn load_profile_spec(name: Seq<char>, override_source: Option<Seq<char>>) -> Result<
    StealthProfileView,
    ProfileErrorView,
> {
    let loaded = match override_source {
        Some(src) => parse_override_spec(name, src),
        None => match builtin_profile_view(name) {
            Some(p) => Ok(p),
            None => Err(ProfileErrorView::UnknownBuiltinProfile(name)),
        },
    };
    match loaded {
        Err(e) => Err(e),
        Ok(p) => match profile_invalid_field(p) {
            Some(f) => Err(ProfileErrorView::InvalidProfile(f)),
            None => Ok(p),
        },
    }
}

pub open spec fn opt_str_view(o: Option<&str>) -> Option<Seq<char>> {
    match o {
        Some(s) => Some(s@),
        None => None,
    }
}

/// Loads a built-in profile, or the one an override source describes, and validates it.
pub fn load_profile(name: &str, override_content: Option<&str>) -> (r: Result<
    StealthProfile,
    ProfileError,
>)
    ensures
        r matches Ok(p) ==> load_profile_spec(name@, opt_str_view(override_content)) == Ok::<
            StealthProfileView,
            ProfileErrorView,
        >(p@),
        r matches Err(e) ==> load_profile_spec(name@, opt_str_view(override_content)) == Err::<
            StealthProfileView,
            ProfileErrorView,
        >(e@),
{
    let profile = match override_content {
        Some(override_source) => parse_override(name, override_source)?,
        None => match builtin_profile(name) {
            Some(p) => p,
            None => {
                return Err(ProfileError::UnknownBuiltinProfile { name: String::from_str(name) });
            },
        },
    };
    profile.validate()?;
    Ok(profile)
}

fn numeric_field(value: &[char], field: &str) -> (r: Result<u16, ProfileError>)
    ensures
        r matches Ok(x) ==> override_u16(value@, field@) == Ok::<u16, ProfileErrorView>(x),
        r matches Err(e) ==> override_u16(value@, field@) == Err::<u16, ProfileErrorView>(e@),
{
    match parse_unsigned_chars(value, 65535) {
        Some(v) => Ok(v as u16),
        None => Err(invalid_profile(field)),
    }
}

fn apply_line(p: &mut StealthProfile, raw: &[char]) -> (r: Result<(), ProfileError>)
    ensures
        r is Ok ==> apply_override_line(old(p)@, raw@) == Ok::<StealthProfileView, ProfileErrorView>(
            final(p)@,
        ),
        r matches Err(e) ==> apply_override_line(old(p)@, raw@) == Err::<
            StealthProfileView,
            ProfileErrorView,
        >(e@),
{
    let line = trim_chars(raw);
    if line.len() == 0 || has_prefix(&line, &chars_of("#")) {
        return Ok(());
    }
    let (k, v) = match split_once_chars(&line, '=') {
        None => {
            return Err(invalid_profile("override_line_format"));
        },
        Some(kv) => kv,
    };
    let key = trim_chars(&k);
    let value = strip_chars(&trim_chars(&v), Strip::Quote);
    if seq_eq(&key, &chars_of("name")) {
        p.name = string_from_chars(&value);
    } else if seq_eq(&key, &chars_of("alpn")) {
        p.alpn = string_from_chars(&value);
    } else if seq_eq(&key, &chars_of("min_packet_size")) {
        p.min_packet_size = numeric_field(&value, "min_packet_size")?;
    } else if seq_eq(&key, &chars_of("max_packet_size")) {
        p.max_packet_size = numeric_field(&value, "max_packet_size")?;
    } else if seq_eq(&key, &chars_of("min_jitter_ms")) {
        p.min_jitter_ms = numeric_field(&value, "min_jitter_ms")?;
    } else if seq_eq(&key, &chars_of("max_jitter_ms")) {
        p.max_jitter_ms = numeric_field(&value, "max_jitter_ms")?;
    } else {
        return Err(ProfileError::InvalidOverrideKey { key: string_from_chars(&key) });
    }
    Ok(())
}

fn parse_override(name: &str, source: &str) -> (r: Result<StealthProfile, ProfileError>)
    ensures
        r matches Ok(p) ==> parse_override_spec(name@, source@) == Ok::<
            StealthProfileView,
            ProfileErrorView,
        >(p@),
        r matches Err(e) ==> parse_override_spec(name@, source@) == Err::<
            StealthProfileView,
            ProfileErrorView,
        >(e@),
{
    let mut profile = match builtin_profile(name) {
        Some(p) => p,
        None => StealthProfile {
            name: String::from_str(name),
            alpn: String::from_str("h2"),
            min_packet_size: 768,
            max_packet_size: 1280,
            min_jitter_ms: 2,
            max_jitter_ms: 20,
            cipher_suites: Vec::new(),
            extensions: Vec::new(),
        },
    };
    proof {
        reveal_strlit("h2");
    }
    let src = chars_of(source);
    let lines = split_chars(&src, '\n');
    let ghost all = split_on(source@, '\n');
    assert(all.skip(0) =~= all);
    let mut i: usize = 0;
    while i < lines.len()
        invariant
            lines@.len() == all.len(),
            forall|j: int| 0 <= j < lines@.len() ==> #[trigger] lines@[j]@ == all[j],
            i <= lines@.len(),
            parse_override_spec(name@, source@) == apply_override_lines(profile@, all.skip(i as int)),
        decreases lines@.len() - i,
    {
        let ghost before = profile@;
        assert(all.skip(i as int)[0] == all[i as int]);
        assert(all.skip(i as int).drop_first() =~= all.skip(i + 1));
        apply_line(&mut profile, &lines[i])?;
        i = i + 1;
    }
    Ok(profile)
}

} // verus!
