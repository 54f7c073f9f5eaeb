//! The release-artifact filename grammar, the catalog built from the remote
//! feed, and the compatibility matcher.
//!
//! A conforming filename is
//! `BepInEx_<variant>[_<arch>]_<hash>_<version>.<build>.zip`, where
//! `<variant>` is one of the three runtime tokens, the optional `<arch>` is
//! `x64` or `x86` (absent means the primary target `x64`), `<hash>` is a
//! commit-like lowercase-hex string that carries no meaning here, `<version>`
//! is a dotted semantic version, and `<build>` is a decimal build identifier
//! without a leading zero.

use vstd::prelude::*;

use crate::env::EnvironmentVariant;
use crate::text::{
    all_digits, dec_digits, digits_val, ends_with, ends_with_str, eq_str, find_last,
    find_last_in_str, is_digit_char, lemma_dec_digits_val, lemma_find_last_of_concat,
    lemma_split_first, lemma_split_first_of_concat, parse_digits,
    split_first, split_first_str, u64_to_string,
};

verus! {

// ----------------------------------------------------------------------------
// Tokens and character sets
// ----------------------------------------------------------------------------

pub open spec fn token_of_variant(v: EnvironmentVariant) -> Seq<char> {
    match v {
        EnvironmentVariant::ManagedRuntime => "UnityMono"@,
        EnvironmentVariant::NativeCompiledRuntime => "UnityIL2CPP"@,
        EnvironmentVariant::StandaloneLauncher => "NetLauncher"@,
    }
}

pub open spec fn variant_of_token(t: Seq<char>) -> Option<EnvironmentVariant> {
    if t == "UnityMono"@ {
        Some(EnvironmentVariant::ManagedRuntime)
    } else if t == "UnityIL2CPP"@ {
        Some(EnvironmentVariant::NativeCompiledRuntime)
    } else if t == "NetLauncher"@ {
        Some(EnvironmentVariant::StandaloneLauncher)
    } else {
        None
    }
}

pub open spec fn is_arch_token(t: Seq<char>) -> bool {
    t == "x64"@ || t == "x86"@
}

/// The primary target architecture, taken when a filename has no
/// architecture token.
pub open spec fn default_arch() -> Seq<char> {
    "x64"@
}

pub open spec fn is_hex_char(c: char) -> bool {
    is_digit_char(c) || (97 <= c as u32 && c as u32 <= 102)
}

pub open spec fn is_version_char(c: char) -> bool {
    is_digit_char(c) || (97 <= c as u32 && c as u32 <= 122) || (65 <= c as u32 && c as u32 <= 90)
        || c as u32 == 46 || c as u32 == 45
}

pub open spec fn valid_hash(s: Seq<char>) -> bool {
    s.len() >= 1 && (forall|i: int| 0 <= i < s.len() ==> is_hex_char(#[trigger] s[i]))
}

pub open spec fn valid_version(s: Seq<char>) -> bool {
    s.len() >= 1 && (forall|i: int| 0 <= i < s.len() ==> is_version_char(#[trigger] s[i]))
}

/// Build identifiers are plain decimal numbers: at most 18 digits (so the
/// value fits the machine word) and no leading zero.
pub open spec fn valid_build(s: Seq<char>) -> bool {
    1 <= s.len() <= 18 && all_digits(s) && (s[0] != '0' || s.len() == 1)
}

// ----------------------------------------------------------------------------
// The grammar
// ----------------------------------------------------------------------------

/// The fields a conforming filename decomposes into, with the segments kept
/// verbatim.
pub struct ParsedName {
    pub variant: EnvironmentVariant,
    pub explicit_arch: Option<Seq<char>>,
    pub hash: Seq<char>,
    pub version: Seq<char>,
    pub build: Seq<char>,
}

pub open spec fn wf_parsed(p: ParsedName) -> bool {
    &&& (match p.explicit_arch {
        Some(a) => is_arch_token(a),
        None => true,
    })
    &&& valid_hash(p.hash)
    &&& valid_version(p.version)
    &&& valid_build(p.build)
}

/// The segments past the hash separator: `<version>.<build>.zip`, split at
/// the last dot before the extension.
pub open spec fn finish_parse(
    v: EnvironmentVariant,
    arch: Option<Seq<char>>,
    hash: Seq<char>,
    tail: Seq<char>,
) -> Option<ParsedName> {
    if !valid_hash(hash) {
        None
    } else if !ends_with(tail, ".zip"@) {
        None
    } else {
        let stem = tail.subrange(0, tail.len() - 4);
        match find_last(stem, '.') {
            None => None,
            Some(i) => {
                let ver = stem.subrange(0, i);
                let build = stem.subrange(i + 1, stem.len() as int);
                if valid_version(ver) && valid_build(build) {
                    Some(
                        ParsedName {
                            variant: v,
                            explicit_arch: arch,
                            hash: hash,
                            version: ver,
                            build: build,
                        },
                    )
                } else {
                    None
                }
            },
        }
    }
}

/// Structural parse of a filename against the grammar. `None` for any string
/// that does not match it exactly.
pub open spec fn parse_spec(s: Seq<char>) -> Option<ParsedName> {
    match split_first(s, '_') {
        None => None,
        Some((p0, r0)) => if p0 != "BepInEx"@ {
            None
        } else {
            match split_first(r0, '_') {
                None => None,
                Some((tok1, r1)) => match variant_of_token(tok1) {
                    None => None,
                    Some(v) => match split_first(r1, '_') {
                        None => None,
                        Some((tok2, r2)) => if is_arch_token(tok2) {
                            match split_first(r2, '_') {
                                None => None,
                                Some((hash, tail)) => finish_parse(v, Some(tok2), hash, tail),
                            }
                        } else {
                            finish_parse(v, None, tok2, r2)
                        },
                    },
                },
            }
        },
    }
}

/// Reassembles parsed fields into the filename template.
pub open spec fn format_name(p: ParsedName) -> Seq<char> {
    "BepInEx"@ + seq!['_'] + token_of_variant(p.variant) + seq!['_'] + (match p.explicit_arch {
        Some(a) => a + seq!['_'],
        None => Seq::<char>::empty(),
    }) + p.hash + seq!['_'] + p.version + seq!['.'] + p.build + ".zip"@
}

/// A successful `finish_parse` keeps its segments verbatim, and the tail it
/// consumed reassembles from them.
proof fn lemma_finish_parse(
    v: EnvironmentVariant,
    arch: Option<Seq<char>>,
    hash: Seq<char>,
    tail: Seq<char>,
)
    ensures
        finish_parse(v, arch, hash, tail) matches Some(p) ==> {
            &&& p.variant == v
            &&& p.explicit_arch == arch
            &&& p.hash == hash
            &&& valid_hash(hash)
            &&& valid_version(p.version)
            &&& valid_build(p.build)
            &&& tail =~= p.version + seq!['.'] + p.build + ".zip"@
        },
{
    if finish_parse(v, arch, hash, tail) is Some {
        reveal_strlit(".zip");
        assert(".zip"@.len() == 4);
        let stem = tail.subrange(0, tail.len() - 4);
        crate::text::lemma_find_last(stem, '.');
        match find_last(stem, '.') {
            Some(i) => {
                let ver = stem.subrange(0, i);
                let build = stem.subrange(i + 1, stem.len() as int);
                assert(stem =~= ver + seq![stem[i]] + build);
                assert(seq![stem[i]] =~= seq!['.']);
                assert(tail =~= stem + ".zip"@) by {
                    assert(tail.subrange(tail.len() - 4, tail.len() as int) == ".zip"@);
                }
                assert(tail =~= ver + seq!['.'] + build + ".zip"@);
            },
            None => {},
        }
    }
}

/// Round trip: any filename the grammar accepts is reproduced byte for byte
/// by reassembling the parsed fields, and those fields are well-formed.
pub proof fn lemma_parse_format_round_trip(s: Seq<char>)
    ensures
        parse_spec(s) matches Some(p) ==> format_name(p) == s && wf_parsed(p),
{
    if parse_spec(s) is Some {
        lemma_split_first(s, '_');
        match split_first(s, '_') {
            Some((p0, r0)) => {
                lemma_split_first(r0, '_');
                match split_first(r0, '_') {
                    Some((tok1, r1)) => {
                        let v = match variant_of_token(tok1) {
                            Some(v) => v,
                            None => arbitrary(),
                        };
                        assert(token_of_variant(v) == tok1);
                        lemma_split_first(r1, '_');
                        match split_first(r1, '_') {
                            Some((tok2, r2)) => {
                                if is_arch_token(tok2) {
                                    lemma_split_first(r2, '_');
                                    match split_first(r2, '_') {
                                        Some((hash, tail)) => {
                                            lemma_finish_parse(v, Some(tok2), hash, tail);
                                            let p = parse_spec(s).unwrap();
                                            assert(s =~= p0 + seq!['_'] + r0);
                                            assert(r0 =~= tok1 + seq!['_'] + r1);
                                            assert(r1 =~= tok2 + seq!['_'] + r2);
                                            assert(r2 =~= hash + seq!['_'] + tail);
                                            assert(format_name(p) =~= s);
                                        },
                                        None => {},
                                    }
                                } else {
                                    lemma_finish_parse(v, None, tok2, r2);
                                    let p = parse_spec(s).unwrap();
                                    assert(s =~= p0 + seq!['_'] + r0);
                                    assert(r0 =~= tok1 + seq!['_'] + r1);
                                    assert(r1 =~= tok2 + seq!['_'] + r2);
                                    assert(format_name(p) =~= s);
                                }
                            },
                            None => {},
                        }
                    },
                    None => {},
                }
            },
            None => {},
        }
    }
}

/// None of the segment character classes contains a separator.
proof fn lemma_charset_separators()
    ensures
        forall|c: char| is_hex_char(c) ==> c != '_',
        forall|c: char| is_version_char(c) ==> c != '_',
        forall|c: char| is_digit_char(c) ==> c != '.',
{
    assert forall|c: char| is_hex_char(c) implies c != '_' by {
        if c == '_' {
            assert(c as u32 == 95);
        }
    }
    assert forall|c: char| is_version_char(c) implies c != '_' by {
        if c == '_' {
            assert(c as u32 == 95);
        }
    }
    assert forall|c: char| is_digit_char(c) implies c != '.' by {
        if c == '.' {
            assert(c as u32 == 46);
        }
    }
}

/// The template's output reassembled by `lemma_finish_parse`'s counterpart:
/// the part past the hash separator parses back to the same fields.
proof fn lemma_finish_format(p: ParsedName, tail: Seq<char>)
    requires
        wf_parsed(p),
        tail == p.version + seq!['.'] + p.build + ".zip"@,
    ensures
        finish_parse(p.variant, p.explicit_arch, p.hash, tail) == Some(p),
{
    reveal_strlit(".zip");
    lemma_charset_separators();
    let stem0 = p.version + seq!['.'] + p.build;
    assert(tail =~= stem0 + ".zip"@);
    assert(ends_with(tail, ".zip"@)) by {
        assert(tail.subrange(tail.len() - 4, tail.len() as int) =~= ".zip"@);
    }
    let stem = tail.subrange(0, tail.len() - 4);
    assert(stem =~= stem0);
    assert(forall|j: int| 0 <= j < p.build.len() ==> #[trigger] p.build[j] != '.');
    lemma_find_last_of_concat(p.version, p.build, '.');
    let i = p.version.len() as int;
    assert(find_last(stem, '.') == Some(i));
    assert(stem.subrange(0, i) =~= p.version);
    assert(stem.subrange(i + 1, stem.len() as int) =~= p.build);
}

/// The other direction of the round trip: formatting any well-formed fields
/// yields a filename the grammar accepts, and parsing recovers exactly those
/// fields — the grammar is unambiguous.
pub proof fn lemma_format_parse_round_trip(p: ParsedName)
    requires
        wf_parsed(p),
    ensures
        parse_spec(format_name(p)) == Some(p),
{
    lemma_charset_separators();
    reveal_strlit("BepInEx");
    reveal_strlit("UnityMono");
    reveal_strlit("UnityIL2CPP");
    reveal_strlit("NetLauncher");
    reveal_strlit("x64");
    reveal_strlit("x86");

    let s = format_name(p);
    let t = token_of_variant(p.variant);
    let tail = p.version + seq!['.'] + p.build + ".zip"@;
    let rest3 = p.hash + seq!['_'] + tail;
    let rest2 = match p.explicit_arch {
        Some(a) => a + seq!['_'] + rest3,
        None => rest3,
    };
    let rest1 = t + seq!['_'] + rest2;

    assert(s =~= "BepInEx"@ + seq!['_'] + rest1);
    assert(forall|j: int| 0 <= j < "BepInEx"@.len() ==> #[trigger] "BepInEx"@[j] != '_');
    lemma_split_first_of_concat("BepInEx"@, rest1, '_');
    assert(split_first(s, '_') == Some(("BepInEx"@, rest1)));

    match p.variant {
        EnvironmentVariant::ManagedRuntime => {
            assert(forall|j: int| 0 <= j < t.len() ==> #[trigger] t[j] != '_');
        },
        EnvironmentVariant::NativeCompiledRuntime => {
            assert(forall|j: int| 0 <= j < t.len() ==> #[trigger] t[j] != '_');
            assert("UnityIL2CPP"@.len() != "UnityMono"@.len());
        },
        EnvironmentVariant::StandaloneLauncher => {
            assert(forall|j: int| 0 <= j < t.len() ==> #[trigger] t[j] != '_');
            assert("NetLauncher"@.len() != "UnityMono"@.len());
            assert("NetLauncher"@[0] == 'N' && "UnityIL2CPP"@[0] == 'U');
            assert("NetLauncher"@ != "UnityIL2CPP"@);
        },
    }
    lemma_split_first_of_concat(t, rest2, '_');
    assert(split_first(rest1, '_') == Some((t, rest2)));
    assert(variant_of_token(t) == Some(p.variant));

    assert(forall|j: int| 0 <= j < p.hash.len() ==> #[trigger] p.hash[j] != '_');
    match p.explicit_arch {
        Some(a) => {
            assert(forall|j: int| 0 <= j < a.len() ==> #[trigger] a[j] != '_');
            lemma_split_first_of_concat(a, rest3, '_');
            assert(split_first(rest2, '_') == Some((a, rest3)));
            lemma_split_first_of_concat(p.hash, tail, '_');
            assert(split_first(rest3, '_') == Some((p.hash, tail)));
            lemma_finish_format(p, tail);
        },
        None => {
            lemma_split_first_of_concat(p.hash, tail, '_');
            assert(split_first(rest2, '_') == Some((p.hash, tail)));
            assert(!is_arch_token(p.hash)) by {
                if p.hash == "x64"@ {
                    assert(is_hex_char("x64"@[0]));
                    assert('x' as u32 == 120);
                    assert(false);
                }
                if p.hash == "x86"@ {
                    assert(is_hex_char("x86"@[0]));
                    assert(false);
                }
            }
            lemma_finish_format(p, tail);
        },
    }
}

// ----------------------------------------------------------------------------
// Records
// ----------------------------------------------------------------------------

/// Structured metadata for one installable build, parsed from a feed entry's
/// filename. The architecture is the parsed token, or the primary default
/// when the filename had none.
#[derive(Debug, Clone, PartialEq, Eq)]
pub struct ArtifactRecord {
    pub variant: EnvironmentVariant,
    pub arch: String,
    pub arch_explicit: bool,
    pub version: String,
    pub build: u64,
    pub filename: String,
}

/// Mathematical model of an `ArtifactRecord`.
pub struct ArtifactModel {
    pub variant: EnvironmentVariant,
    pub arch: Seq<char>,
    pub arch_explicit: bool,
    pub version: Seq<char>,
    pub build: int,
    pub filename: Seq<char>,
}

impl View for ArtifactRecord {
    type V = ArtifactModel;

    open spec fn view(&self) -> ArtifactModel {
        ArtifactModel {
            variant: self.variant,
            arch: self.arch@,
            arch_explicit: self.arch_explicit,
            version: self.version@,
            build: self.build as int,
            filename: self.filename@,
        }
    }
}

/// The record a parsed filename denotes: the architecture defaulted, the
/// build read as a number, the filename kept verbatim.
pub open spec fn record_model(p: ParsedName, filename: Seq<char>) -> ArtifactModel {
    ArtifactModel {
        variant: p.variant,
        arch: match p.explicit_arch {
            Some(a) => a,
            None => default_arch(),
        },
        arch_explicit: p.explicit_arch is Some,
        version: p.version,
        build: digits_val(p.build),
        filename: filename,
    }
}

/// Architecture defaulting: a filename without the architecture token parses
/// to the primary default; one with an explicit token parses to that token
/// exactly.
pub proof fn lemma_arch_default(s: Seq<char>)
    ensures
        parse_spec(s) matches Some(p) ==> {
            &&& (p.explicit_arch is None ==> record_model(p, s).arch == default_arch())
            &&& (p.explicit_arch matches Some(a) ==> record_model(p, s).arch == a)
        },
{
}

/// Round trip at the record level: reassembling a parsed record's fields,
/// with the hash the parse discarded, reproduces the filename byte for byte.
pub proof fn lemma_record_round_trip(s: Seq<char>)
    ensures
        parse_spec(s) matches Some(p) ==> {
            let m = record_model(p, s);
            format_name(
                ParsedName {
                    variant: m.variant,
                    explicit_arch: if m.arch_explicit {
                        Some(m.arch)
                    } else {
                        None
                    },
                    hash: p.hash,
                    version: m.version,
                    build: dec_digits(m.build),
                },
            ) == s
        },
{
    lemma_parse_format_round_trip(s);
    if parse_spec(s) is Some {
        let p = parse_spec(s).unwrap();
        lemma_dec_digits_val(p.build);
        let m = record_model(p, s);
        let q = ParsedName {
            variant: m.variant,
            explicit_arch: if m.arch_explicit {
                Some(m.arch)
            } else {
                None
            },
            hash: p.hash,
            version: m.version,
            build: dec_digits(m.build),
        };
        assert(q.explicit_arch == p.explicit_arch);
        assert(q.build == p.build);
        assert(format_name(q) == format_name(p));
    }
}

// ----------------------------------------------------------------------------
// Executable parser and formatter
// ----------------------------------------------------------------------------

fn is_hex(c: char) -> (r: bool)
    ensures
        r == is_hex_char(c),
{
    let u = c as u32;
    (48 <= u && u <= 57) || (97 <= u && u <= 102)
}

fn is_version_c(c: char) -> (r: bool)
    ensures
        r == is_version_char(c),
{
    let u = c as u32;
    (48 <= u && u <= 57) || (97 <= u && u <= 122) || (65 <= u && u <= 90) || u == 46 || u == 45
}

fn check_hash(s: &str) -> (r: bool)
    ensures
        r == valid_hash(s@),
{
    let n = s.unicode_len();
    if n == 0 {
        return false;
    }
    let mut i: usize = 0;
    while i < n
        invariant
            i <= n,
            n == s@.len(),
            forall|j: int| 0 <= j < i ==> is_hex_char(#[trigger] s@[j]),
        decreases n - i,
    {
        if !is_hex(s.get_char(i)) {
            return false;
        }
        i += 1;
    }
    true
}

fn check_version(s: &str) -> (r: bool)
    ensures
        r == valid_version(s@),
{
    let n = s.unicode_len();
    if n == 0 {
        return false;
    }
    let mut i: usize = 0;
    while i < n
        invariant
            i <= n,
            n == s@.len(),
            forall|j: int| 0 <= j < i ==> is_version_char(#[trigger] s@[j]),
        decreases n - i,
    {
        if !is_version_c(s.get_char(i)) {
            return false;
        }
        i += 1;
    }
    true
}

fn variant_from_token(t: &str) -> (r: Option<EnvironmentVariant>)
    ensures
        r == variant_of_token(t@),
{
    if eq_str(t, "UnityMono") {
        Some(EnvironmentVariant::ManagedRuntime)
    } else if eq_str(t, "UnityIL2CPP") {
        Some(EnvironmentVariant::NativeCompiledRuntime)
    } else if eq_str(t, "NetLauncher") {
        Some(EnvironmentVariant::StandaloneLauncher)
    } else {
        None
    }
}

impl EnvironmentVariant {
    /// The token naming this variant in artifact filenames.
    pub fn token(&self) -> (r: &'static str)
        ensures
            r@ == token_of_variant(*self),
    {
        match self {
            EnvironmentVariant::ManagedRuntime => "UnityMono",
            EnvironmentVariant::NativeCompiledRuntime => "UnityIL2CPP",
            EnvironmentVariant::StandaloneLauncher => "NetLauncher",
        }
    }
}

/// Parses one feed filename into a structured record. Returns `None`, never
/// an error, for any filename that does not match the grammar.
pub fn parse_filename(name: &str) -> (r: Option<ArtifactRecord>)
    ensures
        match r {
            Some(rec) => parse_spec(name@) matches Some(p) && rec@ == record_model(p, name@),
            None => parse_spec(name@) is None,
        },
{
    let (p0, r0) = match split_first_str(name, '_') {
        Some(p) => p,
        None => {
            return None;
        },
    };
    if !eq_str(p0, "BepInEx") {
        return None;
    }
    let (tok1, r1) = match split_first_str(r0, '_') {
        Some(p) => p,
        None => {
            return None;
        },
    };
    let variant = match variant_from_token(tok1) {
        Some(v) => v,
        None => {
            return None;
        },
    };
    let (tok2, r2) = match split_first_str(r1, '_') {
        Some(p) => p,
        None => {
            return None;
        },
    };
    let arch_explicit: bool = eq_str(tok2, "x64") || eq_str(tok2, "x86");
    let arch_tok: &str;
    let hash: &str;
    let tail: &str;
    if arch_explicit {
        let (h, t) = match split_first_str(r2, '_') {
            Some(p) => p,
            None => {
                return None;
            },
        };
        arch_tok = tok2;
        hash = h;
        tail = t;
    } else {
        arch_tok = "x64";
        hash = tok2;
        tail = r2;
    }
    if !check_hash(hash) {
        return None;
    }
    if !ends_with_str(tail, ".zip") {
        return None;
    }
    let tn = tail.unicode_len();
    proof {
        reveal_strlit(".zip");
    }
    let stem = tail.substring_char(0, tn - 4);
    let dot = match find_last_in_str(stem, '.') {
        Some(i) => i,
        None => {
            return None;
        },
    };
    let sn = stem.unicode_len();
    let ver = stem.substring_char(0, dot);
    let build_s = stem.substring_char(dot + 1, sn);
    if !check_version(ver) {
        return None;
    }
    let build_num = match parse_digits(build_s) {
        Some(v) => v,
        None => {
            return None;
        },
    };
    if build_s.unicode_len() > 1 && build_s.get_char(0) == '0' {
        return None;
    }
    let rec = ArtifactRecord {
        variant,
        arch: String::from_str(arch_tok),
        arch_explicit,
        version: String::from_str(ver),
        build: build_num,
        filename: name.to_owned(),
    };
    Some(rec)
}

/// Rebuilds the filename for a record, inserting the given hash segment where
/// the parse discarded the original one.
pub fn format_filename(rec: &ArtifactRecord, hash: &str) -> (r: String)
    ensures
        r@ == format_name(
            ParsedName {
                variant: rec@.variant,
                explicit_arch: if rec@.arch_explicit {
                    Some(rec@.arch)
                } else {
                    None
                },
                hash: hash@,
                version: rec@.version,
                build: dec_digits(rec@.build),
            },
        ),
{
    proof {
        reveal_strlit("_");
        reveal_strlit(".");
        reveal_strlit(".zip");
    }
    let mut s = String::from_str("BepInEx");
    s.append("_");
    s.append(rec.variant.token());
    s.append("_");
    if rec.arch_explicit {
        s.append(rec.arch.as_str());
        s.append("_");
    }
    s.append(hash);
    s.append("_");
    s.append(rec.version.as_str());
    s.append(".");
    let b = u64_to_string(rec.build);
    s.append(b.as_str());
    s.append(".zip");
    proof {
        assert("_"@ =~= seq!['_']);
        assert("."@ =~= seq!['.']);
        assert(s@ =~= format_name(
            ParsedName {
                variant: rec@.variant,
                explicit_arch: if rec@.arch_explicit {
                    Some(rec@.arch)
                } else {
                    None
                },
                hash: hash@,
                version: rec@.version,
                build: dec_digits(rec@.build),
            },
        ));
    }
    s
}

// ----------------------------------------------------------------------------
// Catalog and matcher
// ----------------------------------------------------------------------------

/// One raw entry of the remote release feed.
#[derive(Debug, Clone)]
pub struct RemoteArtifactDescriptor {
    pub filename: String,
    pub description: String,
}

pub open spec fn models_of(rs: Seq<ArtifactRecord>) -> Seq<ArtifactModel> {
    rs.map_values(|rec: ArtifactRecord| rec@)
}

/// The records of the conforming filenames, in feed order; non-conforming
/// entries contribute nothing.
pub open spec fn catalog_spec(names: Seq<Seq<char>>) -> Seq<ArtifactModel>
    decreases names.len(),
{
    if names.len() == 0 {
        Seq::empty()
    } else {
        let prefix = catalog_spec(names.subrange(0, names.len() - 1));
        let last = names[names.len() - 1];
        match parse_spec(last) {
            Some(p) => prefix.push(record_model(p, last)),
            None => prefix,
        }
    }
}

pub open spec fn feed_names(feed: Seq<RemoteArtifactDescriptor>) -> Seq<Seq<char>> {
    feed.map_values(|d: RemoteArtifactDescriptor| d.filename@)
}

/// Builds the catalog for one release snapshot. Entries that do not conform
/// to the grammar are silently dropped; an empty or wholly malformed feed
/// yields an empty catalog and never a failure.
pub fn build_catalog(feed: &Vec<RemoteArtifactDescriptor>) -> (r: Vec<ArtifactRecord>)
    ensures
        models_of(r@) == catalog_spec(feed_names(feed@)),
        r@.len() <= feed@.len(),
{
    let ghost names = feed_names(feed@);
    let mut out: Vec<ArtifactRecord> = Vec::new();
    let mut i: usize = 0;
    while i < feed.len()
        invariant
            i <= feed@.len(),
            names == feed_names(feed@),
            models_of(out@) =~= catalog_spec(names.subrange(0, i as int)),
            out@.len() <= i,
        decreases feed@.len() - i,
    {
        let parsed = parse_filename(feed[i].filename.as_str());
        proof {
            assert(names[i as int] == feed@[i as int].filename@);
            assert(names.subrange(0, (i + 1) as int).subrange(0, i as int) =~= names.subrange(
                0,
                i as int,
            ));
            assert(names.subrange(0, (i + 1) as int)[i as int] == names[i as int]);
        }
        match parsed {
            Some(rec) => {
                let ghost old_out = out@;
                out.push(rec);
                proof {
                    assert(models_of(out@) =~= models_of(old_out).push(rec@));
                }
            },
            None => {},
        }
        i += 1;
    }
    proof {
        assert(names.subrange(0, feed@.len() as int) =~= names);
    }
    out
}

/// A record is compatible with a target when its variant and architecture
/// both match exactly.
pub open spec fn matches_target(
    m: ArtifactModel,
    v: EnvironmentVariant,
    arch: Seq<char>,
) -> bool {
    m.variant == v && m.arch == arch
}

/// Selects the first record compatible with the required variant and
/// architecture; catalog order is trusted to reflect recency, so no
/// re-sorting happens. `None` means no compatible artifact, which is distinct
/// from an empty catalog only in the caller's eyes.
pub fn find_compatible(
    catalog: &Vec<ArtifactRecord>,
    variant: EnvironmentVariant,
    arch: &str,
) -> (r: Option<usize>)
    ensures
        match r {
            Some(i) => i < catalog@.len() && matches_target(catalog@[i as int]@, variant, arch@)
                && (forall|j: int| 0 <= j < i ==> !matches_target(catalog@[j]@, variant, arch@)),
            None => forall|j: int|
                0 <= j < catalog@.len() ==> !matches_target(catalog@[j]@, variant, arch@),
        },
{
    let mut i: usize = 0;
    while i < catalog.len()
        invariant
            i <= catalog@.len(),
            forall|j: int| 0 <= j < i ==> !matches_target(catalog@[j]@, variant, arch@),
        decreases catalog@.len() - i,
    {
        if catalog[i].variant == variant && eq_str(catalog[i].arch.as_str(), arch) {
            return Some(i);
        }
        i += 1;
    }
    None
}

} // verus!
