use vstd::prelude::*;

verus! {

/// What the license check found.
pub struct LicenseInfo {
    pub api_key: String,
    pub key_source: String,
    pub is_valid: bool,
}

/// Why there is no license at all.
#[derive(Debug, Clone, Copy, PartialEq, Eq)]
pub enum LicenseError {
    MissingApiKey,
    InvalidLicense,
}

pub const MISSING_KEY_MESSAGE: &'static str = "Proxy functionality requires a valid Javelin API key. Set the JAVELIN_API_KEY environment variable.";

pub const INVALID_LICENSE_MESSAGE: &'static str = "Invalid license. Proxy functionality requires a valid Javelin API key.";

impl LicenseError {
    pub open spec fn text(&self) -> Seq<char> {
        match self {
            LicenseError::MissingApiKey => MISSING_KEY_MESSAGE@,
            LicenseError::InvalidLicense => INVALID_LICENSE_MESSAGE@,
        }
    }

    pub fn message(&self) -> (r: &'static str)
        ensures
            r@ == self.text(),
    {
        match self {
            LicenseError::MissingApiKey => MISSING_KEY_MESSAGE,
            LicenseError::InvalidLicense => INVALID_LICENSE_MESSAGE,
        }
    }
}

/// The variable the API key is read from.
pub const KEY_SOURCE: &'static str = "JAVELIN_API_KEY";

/// Whether `c` is white space: the characters of Unicode's White_Space property.
pub open spec fn is_blank(c: char) -> bool {
    let u = c as u32;
    (0x09 <= u <= 0x0d) || u == 0x20 || u == 0x85 || u == 0xa0 || u == 0x1680 || (0x2000 <= u
        <= 0x200a) || u == 0x2028 || u == 0x2029 || u == 0x202f || u == 0x205f || u == 0x3000
}

/// Whether `c` is white space.
pub fn is_blank_char(c: char) -> (r: bool)
    ensures
        r == is_blank(c),
{
    let u = c as u32;
    (0x09 <= u && u <= 0x0d) || u == 0x20 || u == 0x85 || u == 0xa0 || u == 0x1680 || (0x2000 <= u
        && u <= 0x200a) || u == 0x2028 || u == 0x2029 || u == 0x202f || u == 0x205f || u == 0x3000
}

/// A usable API key: at least ten characters and no whitespace.
pub open spec fn key_format_ok(key: Seq<char>) -> bool {
    key.len() >= 10 && forall|i: int| 0 <= i < key.len() ==> !is_blank(#[trigger] key[i])
}

/// Whether an API key has a usable form.
pub fn validate_api_key_format(api_key: &str) -> (r: bool)
    ensures
        r == key_format_ok(api_key@),
{
    let n = api_key.unicode_len();
    if n < 10 {
        return false;
    }
    let mut i: usize = 0;
    while i < n
        invariant
            n == api_key@.len(),
            i <= n,
            forall|k: int| 0 <= k < i ==> !is_blank(#[trigger] api_key@[k]),
        decreases n - i,
    {
        let c = api_key.get_char(i);
        if is_blank_char(c) {
            return false;
        }
        i = i + 1;
    }
    true
}

/// The license check on the API key found in the environment (`None` when it is not set).
pub fn validate_license_detailed(api_key: Option<&str>) -> (r: Result<LicenseInfo, LicenseError>)
    ensures
        api_key is None <==> r == Err::<LicenseInfo, LicenseError>(LicenseError::MissingApiKey),
        api_key matches Some(k) ==> r matches Ok(info) && info.is_valid == key_format_ok(k@)
            && info.key_source@ == KEY_SOURCE@ && (info.is_valid ==> info.api_key@ == k@) && (
        !info.is_valid ==> info.api_key@.len() == 0),
{
    match api_key {
        None => Err(LicenseError::MissingApiKey),
        Some(key) => {
            if validate_api_key_format(key) {
                Ok(
                    LicenseInfo {
                        api_key: String::from_str(key),
                        key_source: String::from_str(KEY_SOURCE),
                        is_valid: true,
                    },
                )
            } else {
                Ok(
                    LicenseInfo {
                        api_key: String::new(),
                        key_source: String::from_str(KEY_SOURCE),
                        is_valid: false,
                    },
                )
            }
        },
    }
}

/// The API key, when the environment holds a usable one.
pub fn validate_license(api_key: Option<&str>) -> (r: Result<String, LicenseError>)
    ensures
        api_key is None ==> r == Err::<String, LicenseError>(LicenseError::MissingApiKey),
        api_key matches Some(k) ==> (if key_format_ok(k@) {
            r matches Ok(s) && s@ == k@
        } else {
            r == Err::<String, LicenseError>(LicenseError::InvalidLicense)
        }),
{
    match validate_license_detailed(api_key) {
        Ok(info) => {
            if info.is_valid {
                Ok(info.api_key)
            } else {
                Err(LicenseError::InvalidLicense)
            }
        },
        Err(e) => Err(e),
    }
}

/// Whether the environment holds a usable API key.
pub fn has_valid_license(api_key: Option<&str>) -> (r: bool)
    ensures
        r == (api_key matches Some(k) && key_format_ok(k@)),
{
    match validate_license_detailed(api_key) {
        Ok(info) => info.is_valid,
        Err(_) => false,
    }
}

/// The license status line that the gateway reports.
pub fn get_license_status(api_key: Option<&str>) -> (r: String)
    ensures
        api_key is None ==> r@ == "License error: "@ + MISSING_KEY_MESSAGE@,
        api_key matches Some(k) ==> r@ == (if key_format_ok(k@) {
            "Valid license using "@ + KEY_SOURCE@
        } else {
            "Invalid license"@
        }),
{
    match validate_license_detailed(api_key) {
        Ok(info) => {
            if info.is_valid {
                let mut out = String::from_str("Valid license using ");
                out.append(info.key_source.as_str());
                out
            } else {
                String::from_str("Invalid license")
            }
        },
        Err(e) => {
            let mut out = String::from_str("License error: ");
            out.append(e.message());
            out
        },
    }
}

} // verus!
