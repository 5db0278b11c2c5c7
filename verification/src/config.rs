use vstd::prelude::*;
use vstd::string::StrSliceExecFns;

verus! {

/// The configuration formats the library can dispatch to.
#[derive(Clone, Copy, Debug, PartialEq, Eq, Structural)]
pub enum ConfigFormat {
    Json,
    Yaml,
    Toml,
}

/// Why a configuration path was rejected.
#[derive(Clone, Copy, Debug, PartialEq, Eq, Structural)]
pub enum ConfigError {
    UnknownExtension,
}

/// True when position `i` of `path` holds its last dot.
pub open spec fn is_last_dot(path: Seq<char>, i: int) -> bool {
    0 <= i < path.len() && path[i] == '.' && forall|j: int|
        i < j < path.len() ==> path[j] != '.'
}

/// The extension of a file path: what follows the last dot, or the whole
/// path when it has none.
pub open spec fn spec_extension(path: Seq<char>) -> Seq<char> {
    if exists|i: int| is_last_dot(path, i) {
        path.skip((choose|i: int| is_last_dot(path, i)) + 1)
    } else {
        path
    }
}

/// The extension of `filepath`.
pub fn file_extension(filepath: &str) -> (r: &str)
    ensures
        r@ == spec_extension(filepath@),
{
    let n = filepath.unicode_len();
    let mut i = n;
    while i > 0
        invariant
            n == filepath@.len(),
            i <= n,
            forall|j: int| i <= j < n ==> filepath@[j] != '.',
        decreases i,
    {
        i = i - 1;
        if filepath.get_char(i) == '.' {
            proof {
                assert(is_last_dot(filepath@, i as int));
                let w = choose|w: int| is_last_dot(filepath@, w);
                assert(is_last_dot(filepath@, w));
                if w < i {
                    assert(filepath@[i as int] != '.');
                } else if i < w {
                    assert(filepath@[w] != '.');
                }
                assert(w == i);
                assert(filepath@.subrange(i as int + 1, n as int) =~= filepath@.skip(
                    i as int + 1,
                ));
            }
            return filepath.substring_char(i + 1, n);
        }
    }
    proof {
        if exists|w: int| is_last_dot(filepath@, w) {
            let w = choose|w: int| is_last_dot(filepath@, w);
            assert(filepath@[w] != '.');
        }
    }
    filepath
}

/// Whether two string slices hold the same characters.
fn str_eq(a: &str, b: &str) -> (r: bool)
    ensures
        r == (a@ == b@),
{
    let sa: String = a.to_owned();
    let sb: String = b.to_owned();
    sa == sb
}

/// The parser a configuration file path calls for, decided by its
/// extension; an unrecognized extension is rejected.
pub open spec fn spec_format(path: Seq<char>) -> Result<ConfigFormat, ConfigError> {
    if spec_extension(path) == "json"@ {
        Ok(ConfigFormat::Json)
    } else if spec_extension(path) == "yaml"@ {
        Ok(ConfigFormat::Yaml)
    } else if spec_extension(path) == "toml"@ {
        Ok(ConfigFormat::Toml)
    } else {
        Err(ConfigError::UnknownExtension)
    }
}

/// Decides which configuration parser `filepath` calls for, by its
/// extension. Reading and decoding the file itself is the caller's
/// business.
pub fn parse(filepath: &str) -> (r: Result<ConfigFormat, ConfigError>)
    ensures
        r == spec_format(filepath@),
{
    let ext = file_extension(filepath);
    if str_eq(ext, "json") {
        Ok(ConfigFormat::Json)
    } else if str_eq(ext, "yaml") {
        Ok(ConfigFormat::Yaml)
    } else if str_eq(ext, "toml") {
        Ok(ConfigFormat::Toml)
    } else {
        Err(ConfigError::UnknownExtension)
    }
}

} // verus!
