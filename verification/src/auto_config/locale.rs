//! Locale parsing and configuration.
use vstd::prelude::*;
use crate::env_map::EnvMap;
use crate::text::{chars_of, rfind_char, substring, push_str, push_char, last_index_of, lowercase_of};

verus! {

/// The characters of an optional string.
pub open spec fn opt_chars(o: Option<String>) -> Option<Seq<char>> {
    match o {
        Some(s) => Some(s@),
        None => None,
    }
}

/// Splits `s` at its last `c`: the part after it (if `c` occurs) and the part before it.
pub open spec fn split_last(s: Seq<char>, c: char) -> (Option<Seq<char>>, Seq<char>) {
    match last_index_of(s, c) {
        Some(i) => (Some(s.skip(i + 1)), s.take(i)),
        None => (None, s),
    }
}

/// The fields (language, territory, codeset, modifier) that `LocaleInfo::parse`
/// reads from a locale string such as `en_US.UTF-8@euro`.
pub open spec fn parse_locale_spec(l: Seq<char>) -> (Option<Seq<char>>, Option<Seq<char>>, Option<Seq<char>>, Option<Seq<char>>) {
    if l.len() == 0 || l == seq!['C'] || l == seq!['P', 'O', 'S', 'I', 'X'] {
        (Some(seq!['C']), None, None, None)
    } else {
        let (modifier, r1) = split_last(l, '@');
        let (codeset, r2) = split_last(r1, '.');
        let (territory, r3) = split_last(r2, '_');
        (if r3.len() > 0 { Some(r3) } else { None }, territory, codeset, modifier)
    }
}

/// The text of locale fields (language, territory, codeset, modifier), as
/// in `en_US.UTF-8@euro`.
pub open spec fn locale_text(f: (Option<Seq<char>>, Option<Seq<char>>, Option<Seq<char>>, Option<Seq<char>>)) -> Seq<char> {
    (match f.0 { Some(s) => s, None => Seq::<char>::empty() })
        + (match f.1 { Some(s) => seq!['_'] + s, None => Seq::<char>::empty() })
        + (match f.2 { Some(s) => seq!['.'] + s, None => Seq::<char>::empty() })
        + (match f.3 { Some(s) => seq!['@'] + s, None => Seq::<char>::empty() })
}

/// Splitting at the last `c` and joining the parts with `c` gives the text
/// back.
proof fn lemma_split_last(s: Seq<char>, c: char)
    ensures
        match split_last(s, c) {
            (Some(a), b) => b + seq![c] + a == s,
            (None, b) => b == s,
        },
{
    crate::text::lemma_last_index_of(s, c);
    match last_index_of(s, c) {
        Some(i) => {
            assert(s.take(i) + seq![c] + s.skip(i + 1) =~= s);
        },
        None => {},
    }
}

/// Formatting the fields that `LocaleInfo::parse` reads from a locale string
/// gives the string back, for every string but the empty one and `POSIX`
/// (which both read as the `C` locale).
pub proof fn law_parse_then_format(s: Seq<char>)
    requires
        s.len() > 0,
        s != seq!['P', 'O', 'S', 'I', 'X'],
    ensures
        locale_text(parse_locale_spec(s)) == s,
{
    if s == seq!['C'] {
        assert(locale_text(parse_locale_spec(s)) =~= s);
    } else {
        let (m, r1) = split_last(s, '@');
        let (cd, r2) = split_last(r1, '.');
        let (t, r3) = split_last(r2, '_');
        lemma_split_last(s, '@');
        lemma_split_last(r1, '.');
        lemma_split_last(r2, '_');
        let e = Seq::<char>::empty();
        let lang = if r3.len() > 0 { Some(r3) } else { None };
        assert((match lang { Some(x) => x, None => e }) =~= r3);
        assert(r3 + (match t { Some(x) => seq!['_'] + x, None => e }) =~= r2);
        assert(r2 + (match cd { Some(x) => seq!['.'] + x, None => e }) =~= r1);
        assert(r1 + (match m { Some(x) => seq!['@'] + x, None => e }) =~= s);
        assert(locale_text(parse_locale_spec(s)) =~= s);
    }
}

/// Whether a lowercased codeset names UTF-8 once its hyphens are dropped.
pub open spec fn is_utf8_name(lowered: Seq<char>) -> bool {
    lowered.filter(|c: char| c != '-') == seq!['u', 't', 'f', '8']
}

/// Locale information.
#[derive(Debug, Clone, Default)]
pub struct LocaleInfo {
    /// Language code (e.g., "en").
    pub language: Option<String>,
    /// Territory/country (e.g., "US").
    pub territory: Option<String>,
    /// Codeset (e.g., "UTF-8").
    pub codeset: Option<String>,
    /// Modifier (e.g., "euro").
    pub modifier: Option<String>,
}

/// Splits `cs[..end]` at its last `c`: returns the text after it and the new end.
fn split_off_last(cs: &[char], end: usize, c: char) -> (r: (Option<String>, usize))
    requires
        end <= cs.len(),
    ensures
        r.1 <= end,
        ({
            let (after, before) = split_last(cs@.take(end as int), c);
            &&& opt_chars(r.0) == after
            &&& cs@.take(r.1 as int) == before
        }),
{
    let prefix = &cs[0..end];
    proof {
        assert(prefix@ =~= cs@.take(end as int));
    }
    match rfind_char(prefix, c) {
        Some(pos) => {
            let after = substring(cs, pos + 1, end);
            proof {
                assert(after@ =~= cs@.take(end as int).skip(pos + 1));
                assert(cs@.take(pos as int) =~= cs@.take(end as int).take(pos as int));
            }
            (Some(after), pos)
        },
        None => (None, end),
    }
}

impl LocaleInfo {
    /// Parse a locale string (e.g., "en_US.UTF-8").
    pub fn parse(locale: &str) -> (r: Self)
        ensures
            (opt_chars(r.language), opt_chars(r.territory), opt_chars(r.codeset), opt_chars(r.modifier))
                == parse_locale_spec(locale@),
    {
        let cs = chars_of(locale);
        let is_c = cs.len() == 1 && cs[0] == 'C';
        let is_posix = cs.len() == 5 && cs[0] == 'P' && cs[1] == 'O' && cs[2] == 'S' && cs[3] == 'I' && cs[4] == 'X';
        proof {
            if cs@.len() == 1 && cs@[0] == 'C' {
                assert(cs@ =~= seq!['C']);
            }
            if cs@.len() == 5 && cs@[0] == 'P' && cs@[1] == 'O' && cs@[2] == 'S' && cs@[3] == 'I' && cs@[4] == 'X' {
                assert(cs@ =~= seq!['P', 'O', 'S', 'I', 'X']);
            }
        }
        if cs.len() == 0 || is_c || is_posix {
            let c_name = string_of_char('C');
            return LocaleInfo { language: Some(c_name), territory: None, codeset: None, modifier: None };
        }
        let all = cs.as_slice();
        proof {
            assert(all@.take(all@.len() as int) =~= all@);
        }
        let (modifier, end1) = split_off_last(all, cs.len(), '@');
        let (codeset, end2) = split_off_last(all, end1, '.');
        let (territory, end3) = split_off_last(all, end2, '_');
        let language = if end3 > 0 {
            Some(substring(all, 0, end3))
        } else {
            None
        };
        proof {
            assert(all@.take(end3 as int) =~= all@.subrange(0, end3 as int));
        }
        LocaleInfo { language, territory, codeset, modifier }
    }

    /// Check if this is a UTF-8 locale.
    pub fn is_utf8(&self) -> (r: bool)
        ensures
            r == (match self.codeset {
                Some(c) => is_utf8_name(lowercase_of(c@)),
                None => false,
            }),
    {
        match &self.codeset {
            Some(c) => {
                let lowered = crate::text::to_lowercase(c.as_str());
                is_utf8_codeset(lowered.as_str())
            },
            None => false,
        }
    }

    /// Format as locale string.
    pub fn to_string(&self) -> (r: String)
        ensures
            r@ == locale_text((opt_chars(self.language), opt_chars(self.territory), opt_chars(self.codeset),
                opt_chars(self.modifier))),
    {
        let mut result = String::new();
        let ghost e = Seq::<char>::empty();
        if let Some(lang) = &self.language {
            push_str(&mut result, lang.as_str());
        }
        let ghost p1 = result@;
        if let Some(territory) = &self.territory {
            push_char(&mut result, '_');
            push_str(&mut result, territory.as_str());
        }
        let ghost p2 = result@;
        if let Some(codeset) = &self.codeset {
            push_char(&mut result, '.');
            push_str(&mut result, codeset.as_str());
        }
        let ghost p3 = result@;
        if let Some(modifier) = &self.modifier {
            push_char(&mut result, '@');
            push_str(&mut result, modifier.as_str());
        }
        proof {
            assert(p1 =~= e + p1);
            assert(p1 =~= (match self.language { Some(s) => s@, None => e }));
            assert(p2 =~= p1 + (match self.territory { Some(s) => seq!['_'] + s@, None => e }));
            assert(p3 =~= p2 + (match self.codeset { Some(s) => seq!['.'] + s@, None => e }));
            assert(result@ =~= p3 + (match self.modifier { Some(s) => seq!['@'] + s@, None => e }));
        }
        result
    }
}

/// A one-character `String`.
pub fn string_of_char(c: char) -> (r: String)
    ensures
        r@ == seq![c],
{
    let mut s = String::new();
    push_char(&mut s, c);
    s
}

/// Whether an already lowercased codeset names UTF-8 (hyphens ignored).
pub fn is_utf8_codeset(lowered: &str) -> (r: bool)
    ensures
        r == is_utf8_name(lowered@),
{
    let cs = chars_of(lowered);
    let mut kept: Vec<char> = Vec::new();
    let mut i: usize = 0;
    while i < cs.len()
        invariant
            i <= cs.len(),
            kept@ == cs@.take(i as int).filter(|c: char| c != '-'),
        decreases cs.len() - i,
    {
        proof {
            reveal_with_fuel(Seq::filter, 1);
            assert(cs@.take(i + 1).drop_last() =~= cs@.take(i as int));
        }
        if cs[i] != '-' {
            kept.push(cs[i]);
        }
        i = i + 1;
    }
    proof {
        assert(cs@.take(cs@.len() as int) =~= cs@);
    }
    let target: [char; 4] = ['u', 't', 'f', '8'];
    let r = crate::text::chars_eq(kept.as_slice(), &target);
    proof {
        assert(target@ =~= seq!['u', 't', 'f', '8']);
    }
    r
}

/// The locale that `detect_locale` reads: `LC_ALL` if set, else `LANG`, else empty.
pub open spec fn chosen_locale(lc_all: Option<Seq<char>>, lang: Option<Seq<char>>) -> Seq<char> {
    match lc_all {
        Some(v) => v,
        None => match lang {
            Some(v) => v,
            None => Seq::empty(),
        },
    }
}

/// Locale detected from the values of `LC_ALL` and `LANG` (read by the caller).
pub fn detect_locale_from(lc_all: Option<&str>, lang: Option<&str>) -> (r: LocaleInfo)
    ensures
        (opt_chars(r.language), opt_chars(r.territory), opt_chars(r.codeset), opt_chars(r.modifier))
            == parse_locale_spec(chosen_locale(
                match lc_all { Some(s) => Some(s@), None => None },
                match lang { Some(s) => Some(s@), None => None },
            )),
{
    match lc_all {
        Some(v) => LocaleInfo::parse(v),
        None => match lang {
            Some(v) => LocaleInfo::parse(v),
            None => {
                let e = String::new();
                LocaleInfo::parse(e.as_str())
            },
        },
    }
}

/// Whether the environment, given its `LC_ALL` and `LANG` values, supports UTF-8.
pub fn is_utf8_environment(lc_all: Option<&str>, lang: Option<&str>) -> (r: bool)
    ensures
        r == ({
            let codeset = parse_locale_spec(chosen_locale(
                match lc_all { Some(s) => Some(s@), None => None },
                match lang { Some(s) => Some(s@), None => None },
            )).2;
            match codeset {
                Some(c) => is_utf8_name(lowercase_of(c)),
                None => false,
            }
        }),
{
    detect_locale_from(lc_all, lang).is_utf8()
}

/// The locale-related environment variables.
pub open spec fn locale_var_names() -> Seq<Seq<char>> {
    seq![
        "LANG"@, "LC_ALL"@, "LC_CTYPE"@, "LC_NUMERIC"@, "LC_TIME"@, "LC_COLLATE"@,
        "LC_MONETARY"@, "LC_MESSAGES"@, "LC_PAPER"@, "LC_NAME"@, "LC_ADDRESS"@,
        "LC_TELEPHONE"@, "LC_MEASUREMENT"@, "LC_IDENTIFICATION"@,
    ]
}

/// Recommended environment for UTF-8 support.
pub fn utf8_environment() -> (r: EnvMap)
    ensures
        r.contents() == Map::<Seq<char>, Seq<char>>::empty().insert("LANG"@, "en_US.UTF-8"@).insert(
            "LC_ALL"@,
            "en_US.UTF-8"@,
        ),
{
    let mut env = EnvMap::new();
    env.insert("LANG".to_owned(), "en_US.UTF-8".to_owned());
    env.insert("LC_ALL".to_owned(), "en_US.UTF-8".to_owned());
    env
}

/// Force a UTF-8 locale on the given locale environment (`LC_ALL` set to
/// `en_US.UTF-8`, the rest kept).
pub fn force_utf8_env(locale_env: EnvMap) -> (r: EnvMap)
    ensures
        r.contents() == locale_env.contents().insert("LC_ALL"@, "en_US.UTF-8"@),
{
    let mut env = locale_env;
    env.insert("LC_ALL".to_owned(), "en_US.UTF-8".to_owned());
    env
}

} // verus!
