//! The request side of the remote agent protocol: the credential, the three
//! endpoints, and the fixed-shape request envelopes each operation builds.
//! A host transport serialises an [`Envelope`] as a JSON body and posts it
//! to the endpoint's URL; the reply shapes it decodes into are the response
//! types below.

use vstd::prelude::*;

verus! {

/// A remote agent credential: an opaque access key plus the identifier that
/// scopes the conversation on the remote side.
pub struct Carter {
    pub key: String,
    pub user_id: String,
}

/// The remote operations, each with its own endpoint.
#[derive(Clone, Copy, Debug, PartialEq, Eq, Structural)]
pub enum Endpoint {
    Chat,
    Opener,
    Personalise,
}

/// One request to the remote API: which endpoint, and the fields of the
/// JSON body.  `text` and `speak` are absent from the body where an
/// operation does not carry them.
pub struct Envelope {
    pub endpoint: Endpoint,
    pub key: String,
    pub user_id: String,
    pub text: Option<String>,
    pub speak: Option<bool>,
}

/// The path below the API host that serves each endpoint.
pub fn endpoint_path(endpoint: Endpoint) -> (r: &'static str)
    ensures
        endpoint == Endpoint::Chat ==> r@ == "api/chat"@,
        endpoint == Endpoint::Opener ==> r@ == "api/opener"@,
        endpoint == Endpoint::Personalise ==> r@ == "api/personalise"@,
{
    match endpoint {
        Endpoint::Chat => "api/chat",
        Endpoint::Opener => "api/opener",
        Endpoint::Personalise => "api/personalise",
    }
}

/// The full URL a request to `endpoint` is posted to.
pub fn request_url(endpoint: Endpoint) -> (r: String)
    ensures
        r@ == "https://api.carterlabs.ai/"@ + match endpoint {
            Endpoint::Chat => "api/chat"@,
            Endpoint::Opener => "api/opener"@,
            Endpoint::Personalise => "api/personalise"@,
        },
{
    let mut url = "https://api.carterlabs.ai/".to_owned();
    url.append(endpoint_path(endpoint));
    url
}

impl Carter {
    pub fn new(key: String, user_id: String) -> (r: Self)
        ensures
            r.key@ == key@,
            r.user_id@ == user_id@,
    {
        Self { key, user_id }
    }

    /// The envelope of one conversational turn: the user's text, spoken
    /// audio requested.
    pub fn chat_envelope(&self, text: &str) -> (r: Envelope)
        ensures
            r.endpoint == Endpoint::Chat,
            r.key@ == self.key@,
            r.user_id@ == self.user_id@,
            r.text matches Some(t) && t@ == text@,
            r.speak == Some(true),
    {
        Envelope {
            endpoint: Endpoint::Chat,
            key: self.key.clone(),
            user_id: self.user_id.clone(),
            text: Some(text.to_owned()),
            speak: Some(true),
        }
    }

    /// The envelope of a conversation opener: no user text exists yet, so
    /// the body carries only the credential.
    pub fn opener_envelope(&self) -> (r: Envelope)
        ensures
            r.endpoint == Endpoint::Opener,
            r.key@ == self.key@,
            r.user_id@ == self.user_id@,
            r.text is None,
            r.speak is None,
    {
        Envelope {
            endpoint: Endpoint::Opener,
            key: self.key.clone(),
            user_id: self.user_id.clone(),
            text: None,
            speak: None,
        }
    }

    /// The envelope of a persona-shaping turn.
    pub fn personalise_envelope(&self, text: &str) -> (r: Envelope)
        ensures
            r.endpoint == Endpoint::Personalise,
            r.key@ == self.key@,
            r.user_id@ == self.user_id@,
            r.text matches Some(t) && t@ == text@,
            r.speak == Some(true),
    {
        Envelope {
            endpoint: Endpoint::Personalise,
            key: self.key.clone(),
            user_id: self.user_id.clone(),
            text: Some(text.to_owned()),
            speak: Some(true),
        }
    }

    /// The envelope of the reserved directory listing command, with audio
    /// synthesis switched off for machine-consumed text.
    pub fn plugin_list_envelope(&self) -> (r: Envelope)
        ensures
            r.endpoint == Endpoint::Chat,
            r.key@ == self.key@,
            r.user_id@ == self.user_id@,
            r.text matches Some(t) && t@ == "/plugin list"@,
            r.speak == Some(false),
    {
        Envelope {
            endpoint: Endpoint::Chat,
            key: self.key.clone(),
            user_id: self.user_id.clone(),
            text: Some("/plugin list".to_owned()),
            speak: Some(false),
        }
    }

    /// The envelope of the reserved info command for one plugin id, with
    /// audio synthesis switched off.
    pub fn plugin_info_envelope(&self, plugin_id: &str) -> (r: Envelope)
        ensures
            r.endpoint == Endpoint::Chat,
            r.key@ == self.key@,
            r.user_id@ == self.user_id@,
            r.text matches Some(t) && t@ == "/plugin info "@ + plugin_id@,
            r.speak == Some(false),
    {
        let mut command = "/plugin info ".to_owned();
        command.append(plugin_id);
        Envelope {
            endpoint: Endpoint::Chat,
            key: self.key.clone(),
            user_id: self.user_id.clone(),
            text: Some(command),
            speak: Some(false),
        }
    }
}

/// Builds the credential holder for one remote call.
pub fn get_carter(key: String, user_id: String) -> (r: Carter)
    ensures
        r.key@ == key@,
        r.user_id@ == user_id@,
{
    let carter = Carter::new(key, user_id);
    carter
}

/// The reply the remote produces for one turn: the canonical text and an
/// optional encoded voice rendering, opaque to this crate.
#[derive(Clone, Debug)]
pub struct CarterOutput {
    pub text: String,
    pub audio: Option<String>,
}

/// A directive the caller layer may act on; this crate only transports it.
#[derive(Debug)]
pub struct ForcedBehaviour {
    pub name: String,
}

/// The remote agent as the reply describes it.
#[derive(Debug)]
pub struct Agent {
    pub name: String,
    pub image: Option<String>,
}

/// The decoded reply of the chat endpoint.  `output` is legitimately
/// absent when the remote produced no reply; that is a soft failure, not a
/// decode error.
#[derive(Debug)]
pub struct ChatResponse {
    pub output: Option<CarterOutput>,
    pub input: Option<String>,
    pub forced_behaviours: Option<Vec<ForcedBehaviour>>,
    pub agent: Option<Agent>,
}

/// The decoded reply of the opener endpoint: output only, and optional.
#[derive(Clone, Debug)]
pub struct OpenerResponse {
    pub output: Option<CarterOutput>,
}

/// The decoded reply of the personalise endpoint: this endpoint owes a
/// reply, so its output is not optional.
#[derive(Clone, Debug)]
pub struct PersonaliseResponse {
    pub output: CarterOutput,
}

} // verus!
