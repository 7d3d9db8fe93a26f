//! AI provider settings; the API key lives in a secret store.
use vstd::prelude::*;

use crate::analysis::types::AnalysisError;
use crate::text::{chars_of, subseq, vec_starts_with, concat, starts_with, str_is_empty, str_starts_with, str_trim, str_trim_end_char, trim, trim_end_char};

use super::types::AISettings;

verus! {

/// Where the API key is kept, such as the system credential manager.
pub trait SecretStore {
    /// Stores the key.
    fn set(&self, value: &str) -> Result<(), AnalysisError>;

    /// The stored key, if any.
    fn get(&self) -> Result<Option<String>, AnalysisError>;

    /// Removes the key.
    fn delete(&self) -> Result<(), AnalysisError>;
}

/// The first index from `i` on that does not hold an ASCII digit.
pub open spec fn first_non_digit(t: Seq<char>, i: int) -> int
    decreases t.len() - i,
{
    if i < 0 || i >= t.len() || !('0' <= t[i] && t[i] <= '9') {
        i
    } else {
        first_non_digit(t, i + 1)
    }
}

/// Characters that end a host name other than a port: a path, a query or
/// a fragment.
pub open spec fn ends_host(c: char) -> bool {
    c == '/' || c == '?' || c == '#'
}

/// What may follow a local host name: nothing, a path, a query or a
/// fragment, or a port (digits, possibly none) followed by one of these.
pub open spec fn after_local_host(s: Seq<char>) -> bool {
    ||| s.len() == 0
    ||| ends_host(s[0])
    ||| (s[0] == ':' && {
        let k = first_non_digit(s, 1);
        k == s.len() || ends_host(s[k])
    })
}

/// `endpoint` is `prefix` (a scheme and a host) followed by at most a port
/// and a path: its host is exactly the one of `prefix`.
pub open spec fn on_host(endpoint: Seq<char>, prefix: Seq<char>) -> bool {
    starts_with(endpoint, prefix) && after_local_host(
        endpoint.subrange(prefix.len() as int, endpoint.len() as int),
    )
}

/// Endpoints that may receive source code: HTTPS anywhere, plain HTTP
/// only when the host is this machine, `localhost` or `127.0.0.1`.
pub open spec fn endpoint_allowed(endpoint: Seq<char>) -> bool {
    starts_with(endpoint, "https://"@) || on_host(endpoint, "http://localhost"@) || on_host(
        endpoint,
        "http://127.0.0.1"@,
    )
}

fn is_after_local_host(s: &Vec<char>) -> (r: bool)
    ensures
        r == after_local_host(s@),
{
    if s.len() == 0 {
        return true;
    }
    if s[0] == '/' || s[0] == '?' || s[0] == '#' {
        return true;
    }
    if s[0] != ':' {
        return false;
    }
    let mut k: usize = 1;
    while k < s.len() && '0' <= s[k] && s[k] <= '9'
        invariant
            1 <= k <= s@.len(),
            first_non_digit(s@, 1) == first_non_digit(s@, k as int),
        decreases s@.len() - k,
    {
        k = k + 1;
    }
    k == s.len() || s[k] == '/' || s[k] == '?' || s[k] == '#'
}

fn is_on_host(endpoint: &Vec<char>, prefix: &str) -> (r: bool)
    ensures
        r == on_host(endpoint@, prefix@),
{
    let p = chars_of(prefix);
    if !vec_starts_with(endpoint, &p) {
        return false;
    }
    let rest = subseq(endpoint, p.len(), endpoint.len());
    is_after_local_host(&rest)
}

/// An endpoint without trailing slashes.
pub open spec fn normalized_endpoint(endpoint: Seq<char>) -> Seq<char> {
    trim_end_char(endpoint, '/')
}

/// Checks a provider endpoint and drops its trailing slashes.
pub fn validate_endpoint(endpoint: &str) -> (r: Result<String, AnalysisError>)
    ensures
        (r is Ok) == endpoint_allowed(normalized_endpoint(endpoint@)),
        match r {
            Ok(e) => e@ == normalized_endpoint(endpoint@),
            Err(error) => error.code@ == "invalidProvider"@ && error.message@
                == "AI endpoint must use HTTPS or localhost"@,
        },
{
    let trimmed = str_trim_end_char(endpoint, '/');
    let cs = chars_of(&trimmed);
    if !str_starts_with(&trimmed, "https://") && !is_on_host(&cs, "http://localhost") && !is_on_host(
        &cs,
        "http://127.0.0.1",
    ) {
        return Err(
            AnalysisError::new("invalidProvider", "AI endpoint must use HTTPS or localhost".to_owned()),
        );
    }
    Ok(trimmed)
}

/// The settings of the AI assistant and the store of its key.
pub struct AISettingsState<S: SecretStore> {
    settings: AISettings,
    pub secrets: S,
}

impl<S: SecretStore> AISettingsState<S> {
    /// The settings in effect.
    pub closed spec fn current(&self) -> AISettings {
        self.settings
    }

    /// Starts from the saved settings (the defaults when there are none);
    /// they count as configured when the store holds a key, as
    /// `loaded_settings` says of each answer of the store.
    pub fn load(saved: Option<AISettings>, secrets: S) -> (r: Self)
        ensures
            match saved {
                Some(s) => r.current().endpoint == s.endpoint && r.current().model == s.model,
                None => r.current().endpoint@ == "https://api.openai.com/v1"@
                    && r.current().model@ == "gpt-4.1-mini"@,
            },
    {
        let stored = secrets.get();
        let settings = loaded_settings(saved, stored);
        AISettingsState { settings, secrets }
    }

    /// The settings in effect.
    pub fn settings(&self) -> (r: AISettings)
        ensures
            r == self.current(),
    {
        self.settings.clone()
    }

    /// Checks new settings and stores a non-blank API key (trimmed). Gives
    /// the settings to save, with the trailing slashes of the endpoint and
    /// the blanks around the model removed, configured when the store now
    /// holds a key. Nothing is kept yet: see `commit_save`. Invalid settings
    /// are refused before the store is asked; the key handed to the store is
    /// `key_to_store(api_key)`, and the store is asked for the key only when
    /// storing it succeeded; `saved_settings` says what each answer gives.
    pub fn prepare_save(&self, endpoint: &str, model: &str, api_key: Option<String>) -> (r: Result<
        AISettings,
        AnalysisError,
    >)
        ensures
            !endpoint_allowed(normalized_endpoint(endpoint@)) ==> (r matches Err(e) && e.code@
                == "invalidProvider"@ && e.message@ == "AI endpoint must use HTTPS or localhost"@),
            endpoint_allowed(normalized_endpoint(endpoint@)) && trim(model@).len() == 0 ==> (r matches Err(
                e,
            ) && e.code@ == "invalidProvider"@ && e.message@ == "AI model is required"@),
            r matches Ok(s) ==> endpoint_allowed(normalized_endpoint(endpoint@)) && trim(model@).len()
                > 0 && s.endpoint@ == normalized_endpoint(endpoint@) && s.model@ == trim(model@),
    {
        match checked_settings(endpoint, model) {
            Ok(_) => {},
            Err(error) => return Err(error),
        }
        let set_answer = match key_to_store(api_key) {
            Some(key) => self.secrets.set(&key),
            None => Ok(()),
        };
        let stored = match &set_answer {
            Ok(()) => self.secrets.get(),
            Err(_) => Ok(None),
        };
        saved_settings(endpoint, model, set_answer, stored)
    }

    /// What is written to the settings file: never whether a key exists.
    pub fn stored_form(settings: &AISettings) -> (r: AISettings)
        ensures
            r.endpoint == settings.endpoint,
            r.model == settings.model,
            !r.configured,
    {
        AISettings { endpoint: settings.endpoint.clone(), model: settings.model.clone(), configured: false }
    }

    /// Puts saved settings in effect, configured when the store holds a key.
    /// When the store cannot be read nothing changes. What the store answers
    /// decides; `apply_saved` says what follows from each answer.
    pub fn commit_save(&mut self, settings: AISettings) -> (r: Result<AISettings, AnalysisError>)
        ensures
            match r {
                Ok(s) => s.endpoint == settings.endpoint && s.model == settings.model
                    && final(self).current() == s,
                Err(_) => final(self).current() == old(self).current(),
            },
    {
        let stored = self.secrets.get();
        self.apply_saved(settings, stored)
    }

    /// Puts saved settings in effect given what the store answered when
    /// asked for the key: configured when it holds one; on an error of the
    /// store that error is returned and nothing changes.
    pub fn apply_saved(&mut self, settings: AISettings, stored: Result<Option<String>, AnalysisError>) -> (r:
        Result<AISettings, AnalysisError>)
        ensures
            match stored {
                Ok(key) => r matches Ok(s) && s.endpoint == settings.endpoint && s.model
                    == settings.model && s.configured == key.is_some() && final(self).current()
                    == s,
                Err(e) => r == Err::<AISettings, AnalysisError>(e) && final(self).current() == old(
                    self,
                ).current(),
            },
    {
        let configured = match stored {
            Ok(key) => key.is_some(),
            Err(error) => return Err(error),
        };
        let settings = AISettings { endpoint: settings.endpoint, model: settings.model, configured };
        self.settings = settings.clone();
        Ok(settings)
    }

    /// Deletes the API key; the settings are then no longer configured.
    /// When the store refuses, nothing changes. What the store answers
    /// decides; `apply_key_deleted` says what follows from each answer.
    pub fn clear_key(&mut self) -> (r: Result<AISettings, AnalysisError>)
        ensures
            match r {
                Ok(s) => s.endpoint == old(self).current().endpoint && s.model == old(
                    self,
                ).current().model && !s.configured && final(self).current() == s,
                Err(_) => final(self).current() == old(self).current(),
            },
    {
        let deleted = self.secrets.delete();
        self.apply_key_deleted(deleted)
    }

    /// Takes what the store answered when asked to delete the key: on
    /// success the settings are no longer configured; on an error of the
    /// store that error is returned and nothing changes.
    pub fn apply_key_deleted(&mut self, deleted: Result<(), AnalysisError>) -> (r: Result<
        AISettings,
        AnalysisError,
    >)
        ensures
            match deleted {
                Ok(()) => r matches Ok(s) && s.endpoint == old(self).current().endpoint && s.model
                    == old(self).current().model && !s.configured && final(self).current() == s,
                Err(e) => r == Err::<AISettings, AnalysisError>(e) && final(self).current() == old(
                    self,
                ).current(),
            },
    {
        match deleted {
            Ok(()) => {},
            Err(error) => return Err(error),
        }
        let mut settings = self.settings();
        settings.configured = false;
        self.settings = settings.clone();
        Ok(settings)
    }
}

/// The settings in effect at start: the saved ones (the defaults when
/// there are none), configured exactly when the store answered with a key;
/// when the store cannot be read they are not configured.
pub fn loaded_settings(saved: Option<AISettings>, stored: Result<Option<String>, AnalysisError>) -> (r:
    AISettings)
    ensures
        match saved {
            Some(s) => r.endpoint == s.endpoint && r.model == s.model,
            None => r.endpoint@ == "https://api.openai.com/v1"@ && r.model@ == "gpt-4.1-mini"@,
        },
        r.configured == (stored matches Ok(Some(_))),
{
    let mut settings = match saved {
        Some(s) => s,
        None => AISettings::default(),
    };
    settings.configured = match stored {
        Ok(Some(_)) => true,
        _ => false,
    };
    settings
}

/// The key to hand to the secret store when saving: the given key without
/// surrounding blanks, unless nothing is left of it.
pub fn key_to_store(api_key: Option<String>) -> (r: Option<String>)
    ensures
        match api_key {
            Some(k) => if trim(k@).len() > 0 {
                r matches Some(t) && t@ == trim(k@)
            } else {
                r is None
            },
            None => r is None,
        },
{
    match api_key {
        Some(k) => {
            let key = str_trim(&k);
            if str_is_empty(&key) {
                None
            } else {
                Some(key)
            }
        },
        None => None,
    }
}

/// The endpoint and model to save: the endpoint without trailing slashes
/// when it is allowed, and the model without surrounding blanks when
/// something is left of it; `invalidProvider` otherwise.
pub fn checked_settings(endpoint: &str, model: &str) -> (r: Result<(String, String), AnalysisError>)
    ensures
        !endpoint_allowed(normalized_endpoint(endpoint@)) ==> (r matches Err(e) && e.code@
            == "invalidProvider"@ && e.message@ == "AI endpoint must use HTTPS or localhost"@),
        endpoint_allowed(normalized_endpoint(endpoint@)) && trim(model@).len() == 0 ==> (r matches Err(
            e,
        ) && e.code@ == "invalidProvider"@ && e.message@ == "AI model is required"@),
        endpoint_allowed(normalized_endpoint(endpoint@)) && trim(model@).len() > 0 ==> (r matches Ok(
            p,
        ) && p.0@ == normalized_endpoint(endpoint@) && p.1@ == trim(model@)),
{
    let endpoint = match validate_endpoint(endpoint) {
        Ok(e) => e,
        Err(error) => return Err(error),
    };
    let model = str_trim(model);
    if str_is_empty(&model) {
        return Err(AnalysisError::new("invalidProvider", "AI model is required".to_owned()));
    }
    Ok((endpoint, model))
}

/// Whether saving `endpoint` and `model` is allowed.
pub open spec fn valid_settings(endpoint: Seq<char>, model: Seq<char>) -> bool {
    endpoint_allowed(normalized_endpoint(endpoint)) && trim(model).len() > 0
}

/// What saving gives, given the store's answers: `set_answer` to storing
/// the key (`Ok` when there was none to store) and `stored` to asking for
/// the key afterwards. Invalid settings are refused with `invalidProvider`
/// whatever the store says; otherwise an error of the store is passed on,
/// and the settings are the normalized endpoint and trimmed model,
/// configured exactly when the store holds a key. When the store's errors
/// never have the code `invalidProvider`, that code comes exactly for
/// invalid settings.
pub fn saved_settings(
    endpoint: &str,
    model: &str,
    set_answer: Result<(), AnalysisError>,
    stored: Result<Option<String>, AnalysisError>,
) -> (r: Result<AISettings, AnalysisError>)
    ensures
        !endpoint_allowed(normalized_endpoint(endpoint@)) ==> (r matches Err(e) && e.code@
            == "invalidProvider"@ && e.message@ == "AI endpoint must use HTTPS or localhost"@),
        endpoint_allowed(normalized_endpoint(endpoint@)) && trim(model@).len() == 0 ==> (r matches Err(
            e,
        ) && e.code@ == "invalidProvider"@ && e.message@ == "AI model is required"@),
        valid_settings(endpoint@, model@) ==> match set_answer {
            Err(e) => r == Err::<AISettings, AnalysisError>(e),
            Ok(()) => match stored {
                Err(e) => r == Err::<AISettings, AnalysisError>(e),
                Ok(key) => r matches Ok(s) && s.endpoint@ == normalized_endpoint(endpoint@)
                    && s.model@ == trim(model@) && s.configured == key.is_some(),
            },
        },
        (set_answer matches Err(e) ==> e.code@ != "invalidProvider"@) && (stored matches Err(e)
            ==> e.code@ != "invalidProvider"@) ==> ((r matches Err(e) && e.code@
            == "invalidProvider"@) <==> !valid_settings(endpoint@, model@)),
{
    let (endpoint, model) = match checked_settings(endpoint, model) {
        Ok(p) => p,
        Err(error) => return Err(error),
    };
    match set_answer {
        Ok(()) => {},
        Err(error) => return Err(error),
    }
    settings_from_store(endpoint, model, stored)
}

/// The settings to save given what the store answered when asked for the
/// key: configured exactly when it holds one; an error of the store is
/// passed on.
pub fn settings_from_store(endpoint: String, model: String, stored: Result<Option<String>, AnalysisError>) -> (r:
    Result<AISettings, AnalysisError>)
    ensures
        match stored {
            Ok(key) => r matches Ok(s) && s.endpoint == endpoint && s.model == model && s.configured
                == key.is_some(),
            Err(e) => r == Err::<AISettings, AnalysisError>(e),
        },
{
    match stored {
        Ok(key) => Ok(AISettings { endpoint, model, configured: key.is_some() }),
        Err(error) => Err(error),
    }
}

/// The error for a failure of the secret store.
pub fn secret_error(detail: &str) -> (r: AnalysisError)
    ensures
        r.code@ == "credentialFailed"@,
        r.message@ == "Could not access the system credential store: "@ + detail@,
{
    AnalysisError::new(
        "credentialFailed",
        concat("Could not access the system credential store: ", detail),
    )
}

/// The error for settings that cannot be written.
pub fn settings_error(detail: &str) -> (r: AnalysisError)
    ensures
        r.code@ == "settingsFailed"@,
        r.message@ == "Could not save AI settings: "@ + detail@,
{
    AnalysisError::new("settingsFailed", concat("Could not save AI settings: ", detail))
}

/// The error for a failed request to the provider.
pub fn provider_error(detail: &str) -> (r: AnalysisError)
    ensures
        r.code@ == "providerFailed"@,
        r.message@ == "AI provider request failed: "@ + detail@,
{
    AnalysisError::new("providerFailed", concat("AI provider request failed: ", detail))
}

} // verus!
