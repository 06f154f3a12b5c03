//! Statically declared local tools: their JSON-schema-like parameter
//! descriptions and the store that indexes them by name.

use vstd::prelude::*;
use crate::json::JsonValue;

verus! {

/// A JSON-schema-like description of a tool's parameters. Only parsed and
/// handed to the model; never validated against at call time. Properties
/// keep their declaration order.
#[derive(Debug, PartialEq, Eq)]
pub struct JsonSchema {
    pub type_value: Option<String>,
    pub description: Option<String>,
    pub properties: Option<Vec<(String, JsonSchema)>>,
    pub items: Option<Box<JsonSchema>>,
    pub any_of: Option<Vec<JsonSchema>>,
    pub enum_value: Option<Vec<String>>,
    pub default: Option<JsonValue>,
    pub required: Option<Vec<String>>,
}

impl JsonSchema {
    /// True when the schema declares no properties at all.
    pub fn is_empty_properties(&self) -> (b: bool)
        ensures
            b == match self.properties {
                Some(v) => v@.len() == 0,
                None => true,
            },
    {
        match &self.properties {
            Some(v) => v.len() == 0,
            None => true,
        }
    }
}

/// One statically declared local tool.
#[derive(Debug, PartialEq, Eq)]
pub struct FunctionDeclaration {
    pub name: String,
    pub description: String,
    pub parameters: JsonSchema,
    /// The tool is delegated through an active agent's own executable.
    pub agent: bool,
    /// The tool may run in parallel with other calls of its batch.
    pub allow_concurrency: bool,
}

/// The store of declared local tools. Immutable once loaded.
#[derive(Debug, PartialEq, Eq)]
pub struct Functions {
    declarations: Vec<FunctionDeclaration>,
}

/// The first declaration named `name`, if any.
pub open spec fn spec_find(decls: Seq<FunctionDeclaration>, name: Seq<char>) -> Option<
    FunctionDeclaration,
>
    decreases decls.len(),
{
    if decls.len() == 0 {
        None
    } else if decls[0].name@ == name {
        Some(decls[0])
    } else {
        spec_find(decls.drop_first(), name)
    }
}

impl Functions {
    /// A store over the given declarations.
    pub fn new(declarations: Vec<FunctionDeclaration>) -> (r: Self)
        ensures
            r.spec_declarations() == declarations@,
    {
        Functions { declarations }
    }

    pub closed spec fn spec_declarations(&self) -> Seq<FunctionDeclaration> {
        self.declarations@
    }

    /// The first declaration named `name`, if any.
    pub fn find(&self, name: &str) -> (r: Option<&FunctionDeclaration>)
        ensures
            match r {
                Some(d) => spec_find(self.spec_declarations(), name@) == Some(*d),
                None => spec_find(self.spec_declarations(), name@) is None,
            },
    {
        let ghost decls = self.declarations@;
        let name_owned: String = name.to_owned();
        let mut i: usize = 0;
        proof {
            assert(decls.skip(0) =~= decls);
        }
        while i < self.declarations.len()
            invariant
                0 <= i <= decls.len(),
                decls == self.declarations@,
                name_owned@ == name@,
                spec_find(decls, name@) == spec_find(decls.skip(i as int), name@),
            decreases decls.len() - i,
        {
            let ghost rest = decls.skip(i as int);
            proof {
                assert(rest[0] == decls[i as int]);
                assert(rest.drop_first() =~= decls.skip(i as int + 1));
            }
            if self.declarations[i].name == name_owned {
                return Some(&self.declarations[i]);
            }
            i = i + 1;
        }
        proof {
            assert(decls.skip(decls.len() as int) =~= Seq::<FunctionDeclaration>::empty());
        }
        None
    }

    /// True when some declaration is named `name`.
    pub fn contains(&self, name: &str) -> (b: bool)
        ensures
            b == (spec_find(self.spec_declarations(), name@) is Some),
    {
        match self.find(name) {
            Some(_) => true,
            None => false,
        }
    }

    pub fn declarations(&self) -> (r: &Vec<FunctionDeclaration>)
        ensures
            r@ == self.spec_declarations(),
    {
        &self.declarations
    }

    pub fn is_empty(&self) -> (b: bool)
        ensures
            b == (self.spec_declarations().len() == 0),
    {
        self.declarations.len() == 0
    }
}

} // verus!
