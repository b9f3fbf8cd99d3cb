//! The models that can be asked, by provider, and the choice among them.

use crate::lines::line_views;
use crate::numeral::{decimal, is_unsigned, parse_unsigned, push_decimal, unsigned_value};
use crate::text::{trim, trimmed};
use vstd::prelude::*;

verus! {

/// The models offered through OpenRouter.
#[derive(Debug, Clone, Copy, PartialEq, Eq, Structural)]
pub enum OpenRouterModel {
    NousHermes3Llama31405B,
    NousHermes3Llama31405BExtended,
    MetaLlama318BInstructFree,
}

/// The models offered through Hyperbolic.
#[derive(Debug, Clone, Copy, PartialEq, Eq, Structural)]
pub enum HyperbolicModel {
    NousHermes3Llama3170B,
    MetaLlama3170BInstruct,
    MetaLlama318BInstruct,
    MetaLlama31405BInstruct,
    MetaLlama31405B,
}

impl OpenRouterModel {
    /// The identifier under which the provider knows the model.
    pub open spec fn identifier(self) -> Seq<char> {
        match self {
            OpenRouterModel::NousHermes3Llama31405B => "nousresearch/hermes-3-llama-3.1-405b"@,
            OpenRouterModel::NousHermes3Llama31405BExtended => "nousresearch/hermes-3-llama-3.1-405b:extended"@,
            OpenRouterModel::MetaLlama318BInstructFree => "meta-llama/llama-3.1-8b-instruct:free"@,
        }
    }

    /// All models, in the order in which they are offered.
    pub open spec fn catalog() -> Seq<OpenRouterModel> {
        seq![
            OpenRouterModel::NousHermes3Llama31405B,
            OpenRouterModel::NousHermes3Llama31405BExtended,
            OpenRouterModel::MetaLlama318BInstructFree,
        ]
    }

    /// The identifier under which the provider knows the model.
    pub fn as_str(&self) -> (name: &'static str)
        ensures
            name@ == self.identifier(),
    {
        match self {
            OpenRouterModel::NousHermes3Llama31405B => "nousresearch/hermes-3-llama-3.1-405b",
            OpenRouterModel::NousHermes3Llama31405BExtended => "nousresearch/hermes-3-llama-3.1-405b:extended",
            OpenRouterModel::MetaLlama318BInstructFree => "meta-llama/llama-3.1-8b-instruct:free",
        }
    }

    /// All models, in the order in which they are offered.
    pub fn all() -> (models: Vec<OpenRouterModel>)
        ensures
            models@ == Self::catalog(),
    {
        let mut models: Vec<OpenRouterModel> = Vec::new();
        models.push(OpenRouterModel::NousHermes3Llama31405B);
        models.push(OpenRouterModel::NousHermes3Llama31405BExtended);
        models.push(OpenRouterModel::MetaLlama318BInstructFree);
        assert(models@ =~= Self::catalog());
        models
    }
}

impl HyperbolicModel {
    /// The identifier under which the provider knows the model.
    pub open spec fn identifier(self) -> Seq<char> {
        match self {
            HyperbolicModel::NousHermes3Llama3170B => "NousResearch/Hermes-3-Llama-3.1-70B"@,
            HyperbolicModel::MetaLlama3170BInstruct => "meta-llama/Meta-Llama-3.1-70B-Instruct"@,
            HyperbolicModel::MetaLlama318BInstruct => "meta-llama/Meta-Llama-3.1-8B-Instruct"@,
            HyperbolicModel::MetaLlama31405BInstruct => "meta-llama/Meta-Llama-3.1-405B-Instruct"@,
            HyperbolicModel::MetaLlama31405B => "meta-llama/Meta-Llama-3.1-405B"@,
        }
    }

    /// All models, in the order in which they are offered.
    pub open spec fn catalog() -> Seq<HyperbolicModel> {
        seq![
            HyperbolicModel::NousHermes3Llama3170B,
            HyperbolicModel::MetaLlama3170BInstruct,
            HyperbolicModel::MetaLlama318BInstruct,
            HyperbolicModel::MetaLlama31405BInstruct,
            HyperbolicModel::MetaLlama31405B,
        ]
    }

    /// The identifier under which the provider knows the model.
    pub fn as_str(&self) -> (name: &'static str)
        ensures
            name@ == self.identifier(),
    {
        match self {
            HyperbolicModel::NousHermes3Llama3170B => "NousResearch/Hermes-3-Llama-3.1-70B",
            HyperbolicModel::MetaLlama3170BInstruct => "meta-llama/Meta-Llama-3.1-70B-Instruct",
            HyperbolicModel::MetaLlama318BInstruct => "meta-llama/Meta-Llama-3.1-8B-Instruct",
            HyperbolicModel::MetaLlama31405BInstruct => "meta-llama/Meta-Llama-3.1-405B-Instruct",
            HyperbolicModel::MetaLlama31405B => "meta-llama/Meta-Llama-3.1-405B",
        }
    }

    /// All models, in the order in which they are offered.
    pub fn all() -> (models: Vec<HyperbolicModel>)
        ensures
            models@ == Self::catalog(),
    {
        let mut models: Vec<HyperbolicModel> = Vec::new();
        models.push(HyperbolicModel::NousHermes3Llama3170B);
        models.push(HyperbolicModel::MetaLlama3170BInstruct);
        models.push(HyperbolicModel::MetaLlama318BInstruct);
        models.push(HyperbolicModel::MetaLlama31405BInstruct);
        models.push(HyperbolicModel::MetaLlama31405B);
        assert(models@ =~= Self::catalog());
        models
    }
}

/// The identifiers of the models of a provider, in the order in which they
/// are offered.
pub open spec fn identifiers(is_openrouter: bool) -> Seq<Seq<char>> {
    if is_openrouter {
        OpenRouterModel::catalog().map_values(|model: OpenRouterModel| model.identifier())
    } else {
        HyperbolicModel::catalog().map_values(|model: HyperbolicModel| model.identifier())
    }
}

/// The identifier of the model that is asked where none is chosen.
pub open spec fn default_identifier(is_openrouter: bool) -> Seq<char> {
    if is_openrouter {
        OpenRouterModel::NousHermes3Llama31405B.identifier()
    } else {
        HyperbolicModel::MetaLlama31405BInstruct.identifier()
    }
}

/// The line that offers a model in the menu: its 1-based position, a full
/// stop, a space and its identifier.
pub open spec fn menu_entry(position: nat, identifier: Seq<char>) -> Seq<char> {
    decimal(position + 1) + seq!['.', ' '] + identifier
}

/// The position in a menu of `count` entries that an answer chooses: the
/// answer, without the white space around it, is an unsigned numeral between 1
/// and `count`, and the position is one less. Every other answer chooses
/// nothing.
pub open spec fn chosen_position(answer: Seq<char>, count: nat) -> Option<int> {
    let numeral = trim(answer);
    if is_unsigned(numeral) && 1 <= unsigned_value(numeral) <= count {
        Some(unsigned_value(numeral) - 1)
    } else {
        None
    }
}

/// The identifiers of the models of a provider.
pub fn model_names(is_openrouter: bool) -> (names: Vec<String>)
    ensures
        line_views(names@) == identifiers(is_openrouter),
{
    let mut names: Vec<String> = Vec::new();
    if is_openrouter {
        let models = OpenRouterModel::all();
        let mut i: usize = 0;
        while i < models.len()
            invariant
                i <= models.len(),
                models@ == OpenRouterModel::catalog(),
                names.len() == i,
                forall|k: int| 0 <= k < i ==> names@[k]@ == models@[k].identifier(),
            decreases models.len() - i,
        {
            names.push(models[i].as_str().to_owned());
            i += 1;
        }
        assert(line_views(names@) =~= identifiers(is_openrouter));
    } else {
        let models = HyperbolicModel::all();
        let mut i: usize = 0;
        while i < models.len()
            invariant
                i <= models.len(),
                models@ == HyperbolicModel::catalog(),
                names.len() == i,
                forall|k: int| 0 <= k < i ==> names@[k]@ == models@[k].identifier(),
            decreases models.len() - i,
        {
            names.push(models[i].as_str().to_owned());
            i += 1;
        }
        assert(line_views(names@) =~= identifiers(is_openrouter));
    }
    names
}

/// The identifier of the model that is asked where none is chosen.
pub fn default_model(is_openrouter: bool) -> (name: String)
    ensures
        name@ == default_identifier(is_openrouter),
{
    if is_openrouter {
        OpenRouterModel::NousHermes3Llama31405B.as_str().to_owned()
    } else {
        HyperbolicModel::MetaLlama31405BInstruct.as_str().to_owned()
    }
}

/// The menu of the models of a provider, one line per model.
pub fn model_menu(is_openrouter: bool) -> (menu: Vec<String>)
    ensures
        menu.len() == identifiers(is_openrouter).len(),
        forall|k: int|
            0 <= k < menu.len() ==> menu@[k]@ == menu_entry(
                k as nat,
                identifiers(is_openrouter)[k],
            ),
{
    let names = model_names(is_openrouter);
    let mut menu: Vec<String> = Vec::new();
    let mut i: usize = 0;
    while i < names.len()
        invariant
            i <= names.len(),
            line_views(names@) == identifiers(is_openrouter),
            menu.len() == i,
            forall|k: int|
                0 <= k < i ==> menu@[k]@ == menu_entry(k as nat, identifiers(is_openrouter)[k]),
        decreases names.len() - i,
    {
        let mut entry = String::new();
        push_decimal(&mut entry, i + 1);
        entry.push('.');
        entry.push(' ');
        entry.append(names[i].as_str());
        assert(line_views(names@)[i as int] == names@[i as int]@);
        assert(entry@ =~= menu_entry(i as nat, identifiers(is_openrouter)[i as int]));
        menu.push(entry);
        i += 1;
    }
    menu
}

/// The model of a provider that an answer to its menu chooses, if any.
pub fn model_for_choice(is_openrouter: bool, answer: &str) -> (model: Option<String>)
    ensures
        match chosen_position(answer@, identifiers(is_openrouter).len()) {
            Some(position) => model matches Some(name) && name@ == identifiers(
                is_openrouter,
            )[position],
            None => model is None,
        },
{
    let names = model_names(is_openrouter);
    let numeral = trimmed(answer);
    match parse_unsigned(numeral.as_str()) {
        Some(choice) => {
            if choice > 0 && choice <= names.len() {
                assert(line_views(names@)[choice - 1] == names@[choice - 1]@);
                Some(names[choice - 1].clone())
            } else {
                None
            }
        },
        None => None,
    }
}

} // verus!
