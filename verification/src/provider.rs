//! The two providers of models: their names, their addresses and the texts
//! that a request to them is made of.

use crate::text::{same_text, trim, trimmed};
use vstd::prelude::*;

verus! {

/// A provider of models.
#[derive(Debug, Clone, Copy, PartialEq, Eq, Structural)]
pub enum Provider {
    Hyperbolic,
    OpenRouter,
}

/// The form of a request body.
#[derive(Debug, Clone, Copy, PartialEq, Eq, Structural)]
pub enum RequestForm {
    /// A single prompt to be completed.
    Prompt,
    /// A conversation of messages.
    Chat,
}

impl Provider {
    /// The name of the provider.
    pub open spec fn spec_name(self) -> Seq<char> {
        match self {
            Provider::Hyperbolic => "Hyperbolic"@,
            Provider::OpenRouter => "OpenRouter"@,
        }
    }

    /// The address at which the provider lists its models. A request there
    /// succeeds only with a valid key.
    pub open spec fn spec_models_url(self) -> Seq<char> {
        match self {
            Provider::Hyperbolic => "https://api.hyperbolic.xyz/v1/models"@,
            Provider::OpenRouter => "https://openrouter.ai/api/v1/models"@,
        }
    }

    /// The name of the file that keeps the key of the provider: the name of
    /// the provider in lower case, followed by `_api_key.txt`.
    pub open spec fn spec_key_file_name(self) -> Seq<char> {
        match self {
            Provider::Hyperbolic => "hyperbolic_api_key.txt"@,
            Provider::OpenRouter => "openrouter_api_key.txt"@,
        }
    }

    /// The form of the request body for a model: Hyperbolic takes a single
    /// prompt for its base model, every other request is a conversation.
    pub open spec fn spec_request_form(self, model: Seq<char>) -> RequestForm {
        if self == Provider::Hyperbolic && model == "meta-llama/Meta-Llama-3.1-405B"@ {
            RequestForm::Prompt
        } else {
            RequestForm::Chat
        }
    }

    /// The address to which a request for a model is sent.
    pub open spec fn spec_completions_url(self, model: Seq<char>) -> Seq<char> {
        match self {
            Provider::Hyperbolic => match self.spec_request_form(model) {
                RequestForm::Prompt => "https://api.hyperbolic.xyz/v1/completions"@,
                RequestForm::Chat => "https://api.hyperbolic.xyz/v1/chat/completions"@,
            },
            Provider::OpenRouter => "https://openrouter.ai/api/v1/chat/completions"@,
        }
    }

    /// The largest number of tokens that a reply may have: 512 for a single
    /// prompt, 2048 for a conversation.
    pub open spec fn spec_max_tokens(self, model: Seq<char>) -> nat {
        match self.spec_request_form(model) {
            RequestForm::Prompt => 512,
            RequestForm::Chat => 2048,
        }
    }

    /// The provider that the command line selects.
    pub fn from_flag(openrouter: bool) -> (provider: Provider)
        ensures
            provider == if openrouter {
                Provider::OpenRouter
            } else {
                Provider::Hyperbolic
            },
    {
        if openrouter {
            Provider::OpenRouter
        } else {
            Provider::Hyperbolic
        }
    }

    /// The provider of the given name, if there is one. Names are told apart
    /// by case.
    pub fn from_name(name: &str) -> (provider: Option<Provider>)
        ensures
            name@ == Provider::Hyperbolic.spec_name() ==> provider == Some(Provider::Hyperbolic),
            name@ == Provider::OpenRouter.spec_name() ==> provider == Some(Provider::OpenRouter),
            name@ != Provider::Hyperbolic.spec_name() && name@ != Provider::OpenRouter.spec_name()
                ==> provider is None,
    {
        proof {
            reveal_strlit("Hyperbolic");
            reveal_strlit("OpenRouter");
            assert("Hyperbolic"@[0] != "OpenRouter"@[0]);
        }
        if same_text(name, "Hyperbolic") {
            Some(Provider::Hyperbolic)
        } else if same_text(name, "OpenRouter") {
            Some(Provider::OpenRouter)
        } else {
            None
        }
    }

    /// Whether this is OpenRouter.
    pub fn is_openrouter(&self) -> (openrouter: bool)
        ensures
            openrouter == (*self == Provider::OpenRouter),
    {
        match self {
            Provider::OpenRouter => true,
            Provider::Hyperbolic => false,
        }
    }

    /// The name of the provider.
    pub fn name(&self) -> (name: &'static str)
        ensures
            name@ == self.spec_name(),
    {
        match self {
            Provider::Hyperbolic => "Hyperbolic",
            Provider::OpenRouter => "OpenRouter",
        }
    }

    /// The address at which the provider lists its models.
    pub fn models_url(&self) -> (url: &'static str)
        ensures
            url@ == self.spec_models_url(),
    {
        match self {
            Provider::Hyperbolic => "https://api.hyperbolic.xyz/v1/models",
            Provider::OpenRouter => "https://openrouter.ai/api/v1/models",
        }
    }

    /// The name of the file that keeps the key of the provider.
    pub fn key_file_name(&self) -> (name: &'static str)
        ensures
            name@ == self.spec_key_file_name(),
    {
        match self {
            Provider::Hyperbolic => "hyperbolic_api_key.txt",
            Provider::OpenRouter => "openrouter_api_key.txt",
        }
    }

    /// The form of the request body for a model.
    pub fn request_form(&self, model: &str) -> (form: RequestForm)
        ensures
            form == self.spec_request_form(model@),
    {
        match self {
            Provider::Hyperbolic => {
                if same_text(model, "meta-llama/Meta-Llama-3.1-405B") {
                    RequestForm::Prompt
                } else {
                    RequestForm::Chat
                }
            },
            Provider::OpenRouter => RequestForm::Chat,
        }
    }

    /// The address to which a request for a model is sent.
    pub fn completions_url(&self, model: &str) -> (url: &'static str)
        ensures
            url@ == self.spec_completions_url(model@),
    {
        match self {
            Provider::Hyperbolic => match self.request_form(model) {
                RequestForm::Prompt => "https://api.hyperbolic.xyz/v1/completions",
                RequestForm::Chat => "https://api.hyperbolic.xyz/v1/chat/completions",
            },
            Provider::OpenRouter => "https://openrouter.ai/api/v1/chat/completions",
        }
    }

    /// The largest number of tokens that a reply may have.
    pub fn max_tokens(&self, model: &str) -> (limit: u32)
        ensures
            limit == self.spec_max_tokens(model@),
    {
        match self.request_form(model) {
            RequestForm::Prompt => 512,
            RequestForm::Chat => 2048,
        }
    }
}

/// The value of the header that authorizes a request: the word `Bearer`, a
/// space and the key.
pub open spec fn bearer_value(api_key: Seq<char>) -> Seq<char> {
    "Bearer "@ + api_key
}

/// What the model is told: the language of the code, then the context.
pub open spec fn user_message_text(language: Seq<char>, context: Seq<char>) -> Seq<char> {
    "The following code is in "@ + language + ". "@ + context
}

/// The context of a request: the developer's prompt, an empty line, and the
/// content of the file.
pub open spec fn context_text(prompt: Seq<char>, file_content: Seq<char>) -> Seq<char> {
    prompt + "\n\n"@ + file_content
}

/// The key that the content of a key file holds: the content without the
/// white space around it, where anything is left.
pub open spec fn key_in(content: Seq<char>) -> Option<Seq<char>> {
    if trim(content).len() == 0 {
        None
    } else {
        Some(trim(content))
    }
}

/// The value of the header that authorizes a request.
pub fn bearer(api_key: &str) -> (value: String)
    ensures
        value@ == bearer_value(api_key@),
{
    let mut value = String::new();
    value.append("Bearer ");
    value.append(api_key);
    assert(value@ =~= bearer_value(api_key@));
    value
}

/// What the model is told.
pub fn user_message(language: &str, context: &str) -> (message: String)
    ensures
        message@ == user_message_text(language@, context@),
{
    let mut message = String::new();
    message.append("The following code is in ");
    message.append(language);
    message.append(". ");
    message.append(context);
    assert(message@ =~= user_message_text(language@, context@));
    message
}

/// The context of a request.
pub fn request_context(prompt: &str, file_content: &str) -> (context: String)
    ensures
        context@ == context_text(prompt@, file_content@),
{
    let mut context = String::new();
    context.append(prompt);
    context.append("\n\n");
    context.append(file_content);
    assert(context@ =~= context_text(prompt@, file_content@));
    context
}

/// The key that the content of a key file holds, if it holds one.
pub fn stored_key(content: &str) -> (key: Option<String>)
    ensures
        match key_in(content@) {
            Some(kept) => key matches Some(found) && found@ == kept,
            None => key is None,
        },
{
    let kept = trimmed(content);
    if kept.as_str().is_empty() {
        None
    } else {
        Some(kept)
    }
}

} // verus!
