//! The error types raised around the elevated helper, and the mapping
//! from raw failure text to the guidance shown to the user. The mapping
//! pattern-matches on known failure signatures in the raw diagnostic and
//! otherwise passes it through verbatim.

use vstd::prelude::*;

verus! {

/// What can go wrong when calling out to the elevated helper.
#[derive(Debug)]
pub enum HelperError {
    /// The helper binary is not where it should be.
    MissingHelper,
    /// Input or output failed around the call; the text says how.
    Io(String),
    /// The helper ran and failed; the text is its diagnostic output.
    HelperFailed(String),
}

#[verifier::ext_equal]
pub enum HelperErrorModel {
    MissingHelper,
    Io(Seq<char>),
    HelperFailed(Seq<char>),
}

impl View for HelperError {
    type V = HelperErrorModel;

    open spec fn view(&self) -> HelperErrorModel {
        match self {
            HelperError::MissingHelper => HelperErrorModel::MissingHelper,
            HelperError::Io(s) => HelperErrorModel::Io(s@),
            HelperError::HelperFailed(s) => HelperErrorModel::HelperFailed(s@),
        }
    }
}

/// The text of a helper error.
pub open spec fn helper_error_text(e: HelperErrorModel) -> Seq<char> {
    match e {
        HelperErrorModel::MissingHelper => "helper binary not found"@,
        HelperErrorModel::Io(s) => "io error: "@ + s,
        HelperErrorModel::HelperFailed(s) => "helper failed: "@ + s,
    }
}

impl HelperError {
    /// The error as text, for display and for signature matching.
    pub fn message(&self) -> (r: String)
        ensures
            r@ == helper_error_text(self@),
    {
        match self {
            HelperError::MissingHelper => String::from_str("helper binary not found"),
            HelperError::Io(s) => String::from_str("io error: ").concat(s.as_str()),
            HelperError::HelperFailed(s) => String::from_str("helper failed: ").concat(s.as_str()),
        }
    }
}

/// What can go wrong in the record store.
#[derive(Debug)]
pub enum StorageError {
    /// No configuration directory could be determined.
    MissingConfigDir,
    /// Input or output failed; the text says how.
    Io(String),
    /// A stored record could not be decoded; the text says why.
    Json(String),
    /// No tunnel carries the given id.
    TunnelNotFound,
    /// No application carries the given id.
    AppNotFound,
}

#[verifier::ext_equal]
pub enum StorageErrorModel {
    MissingConfigDir,
    Io(Seq<char>),
    Json(Seq<char>),
    TunnelNotFound,
    AppNotFound,
}

impl View for StorageError {
    type V = StorageErrorModel;

    open spec fn view(&self) -> StorageErrorModel {
        match self {
            StorageError::MissingConfigDir => StorageErrorModel::MissingConfigDir,
            StorageError::Io(s) => StorageErrorModel::Io(s@),
            StorageError::Json(s) => StorageErrorModel::Json(s@),
            StorageError::TunnelNotFound => StorageErrorModel::TunnelNotFound,
            StorageError::AppNotFound => StorageErrorModel::AppNotFound,
        }
    }
}

/// The text of a storage error.
pub open spec fn storage_error_text(e: StorageErrorModel) -> Seq<char> {
    match e {
        StorageErrorModel::MissingConfigDir => "missing config directory"@,
        StorageErrorModel::Io(s) => "io error: "@ + s,
        StorageErrorModel::Json(s) => "json error: "@ + s,
        StorageErrorModel::TunnelNotFound => "tunnel not found"@,
        StorageErrorModel::AppNotFound => "app not found"@,
    }
}

impl StorageError {
    /// The error as text.
    pub fn message(&self) -> (r: String)
        ensures
            r@ == storage_error_text(self@),
    {
        match self {
            StorageError::MissingConfigDir => String::from_str("missing config directory"),
            StorageError::Io(s) => String::from_str("io error: ").concat(s.as_str()),
            StorageError::Json(s) => String::from_str("json error: ").concat(s.as_str()),
            StorageError::TunnelNotFound => String::from_str("tunnel not found"),
            StorageError::AppNotFound => String::from_str("app not found"),
        }
    }
}

/// Whether `sub` occurs in `s` as a contiguous run of characters.
pub open spec fn contains_chars(s: Seq<char>, sub: Seq<char>) -> bool {
    exists|i: int|
        0 <= i <= s.len() - sub.len() && #[trigger] s.subrange(i, i + sub.len() as int) == sub
}

/// Substring search over characters by direct scan.
pub fn find_chars(s: &str, sub: &str) -> (r: bool)
    ensures
        r == contains_chars(s@, sub@),
{
    let n = s.unicode_len();
    let m = sub.unicode_len();
    if m > n {
        return false;
    }
    let mut i: usize = 0;
    while i <= n - m
        invariant
            m <= n == s@.len(),
            m == sub@.len(),
            0 <= i <= n - m + 1,
            forall|k: int| 0 <= k < i ==> #[trigger] s@.subrange(k, k + sub@.len() as int) != sub@,
        decreases n + 1 - m - i,
    {
        let mut j: usize = 0;
        let mut hit = true;
        while j < m
            invariant
                0 <= j <= m,
                0 <= i <= n - m,
                m <= n == s@.len(),
                m == sub@.len(),
                hit == (forall|t: int| 0 <= t < j ==> s@[i + t] == sub@[t]),
            decreases m - j,
        {
            if s.get_char(i + j) != sub.get_char(j) {
                hit = false;
                proof {
                    assert(s@[i + j] != sub@[j as int]);
                }
                j = m;
            } else {
                j = j + 1;
            }
        }
        if hit {
            proof {
                assert(s@.subrange(i as int, i + sub@.len() as int) =~= sub@);
            }
            return true;
        }
        proof {
            if s@.subrange(i as int, i + sub@.len() as int) == sub@ {
                assert(forall|t: int|
                    0 <= t < m ==> s@[i + t] == #[trigger] s@.subrange(
                        i as int,
                        i + sub@.len() as int,
                    )[t]);
                assert(false);
            }
        }
        i = i + 1;
    }
    proof {
        if contains_chars(s@, sub@) {
            let w = choose|w: int|
                0 <= w <= s@.len() - sub@.len() && #[trigger] s@.subrange(w, w + sub@.len() as int)
                    == sub@;
            assert(false);
        }
    }
    false
}

/// Whether the raw text carries a privilege-failure signature.
pub open spec fn looks_like_permission_failure(m: Seq<char>) -> bool {
    ||| contains_chars(m, "Error accessing"@)
    ||| contains_chars(m, "Permission denied"@)
    ||| contains_chars(m, "status 127"@)
    ||| contains_chars(m, "install failed"@)
}

/// Whether the raw text carries the DNS-management conflict signature.
pub open spec fn looks_like_dns_conflict(m: Seq<char>) -> bool {
    contains_chars(m, "wg-quick error"@) && contains_chars(m, "resolvconf"@)
}

pub open spec fn permission_guidance() -> Seq<char> {
    "Недостаточно прав. Убедитесь, что pkexec и polkit-agent работают, затем повторите. При первом запуске потребуется установка helper в /usr/local/lib."@
}

pub open spec fn dns_guidance() -> Seq<char> {
    "Ошибка DNS: wg-quick попытался изменить DNS. Уберите DNS= из конфигурации или используйте systemd-resolved."@
}

/// Maps a helper failure to what the user sees: known privilege and DNS
/// failure signatures become actionable guidance; anything else is the
/// raw diagnostic, verbatim.
pub fn map_helper_error(err: &HelperError) -> (r: String)
    ensures
        r@ == ({
            let m = helper_error_text(err@);
            if looks_like_permission_failure(m) {
                permission_guidance()
            } else if looks_like_dns_conflict(m) {
                dns_guidance()
            } else {
                m
            }
        }),
{
    let message = err.message();
    if find_chars(message.as_str(), "Error accessing") || find_chars(
        message.as_str(),
        "Permission denied",
    ) || find_chars(message.as_str(), "status 127") || find_chars(
        message.as_str(),
        "install failed",
    ) {
        return String::from_str(
            "Недостаточно прав. Убедитесь, что pkexec и polkit-agent работают, затем повторите. При первом запуске потребуется установка helper в /usr/local/lib.",
        );
    }
    if find_chars(message.as_str(), "wg-quick error") && find_chars(
        message.as_str(),
        "resolvconf",
    ) {
        return String::from_str(
            "Ошибка DNS: wg-quick попытался изменить DNS. Уберите DNS= из конфигурации или используйте systemd-resolved.",
        );
    }
    message
}

} // verus!
