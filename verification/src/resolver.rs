//! The extension-resolution registry.
//!
//! A resolver answers name lookups for foreign transforms, foreign types and
//! foreign functions, and for imports.  [`PreludeImportResolver`] implements
//! look-then-delegate: its own fixed table of built-ins is checked first, and
//! only a miss is forwarded to the user-supplied parent link, so a built-in
//! name always takes priority over a same-named user entry — a design
//! decision, not an oversight.  The parent link is a [`UserResolver`]: an
//! ordered table of entries tried first match wins, with a terminal
//! "not found" when the table is exhausted.

use vstd::prelude::*;
use crate::program::Error;
use crate::values::ScalarType;

verus! {

/// A stream-transform capability: one of the built-ins, or a user-supplied
/// transformer identified by the number under which it was registered.
#[derive(Clone, Copy, PartialEq, Eq, Structural, Debug)]
pub enum ForeignTransformObj {
    Base64Transform,
    GzipTransform,
    Custom(u64),
}

/// A foreign-type capability: a variable-length integer codec of a declared
/// backing width, a text codec, or a user-supplied type.
#[derive(Clone, Copy, PartialEq, Eq, Structural, Debug)]
pub enum ForeignTypeObj {
    VarInt(ScalarType),
    Utf8,
    Utf16,
    Custom(u64),
}

/// A helper-function capability.
#[derive(Clone, Copy, PartialEq, Eq, Structural, Debug)]
pub enum ForeignFunctionObj {
    LenFunction,
    PadFunction,
    Custom(u64),
}

/// The user-supplied end of the chain: ordered lookup tables, first match
/// wins.  Constructed once per compilation session and never mutated.
#[derive(Debug)]
pub struct UserResolver {
    pub transforms: Vec<(String, ForeignTransformObj)>,
    pub types: Vec<(String, ForeignTypeObj)>,
    pub functions: Vec<(String, ForeignFunctionObj)>,
    /// Import name to resolved content.
    pub imports: Vec<(String, String)>,
}

/// The standard layer: built-ins first, then delegation to the wrapped
/// user resolver.
#[derive(Debug)]
pub struct PreludeImportResolver(pub UserResolver);

/// The model of an association table: names as character sequences.
pub open spec fn assoc_model<T>(s: Seq<(String, T)>) -> Seq<(Seq<char>, T)> {
    s.map_values(|p: (String, T)| (p.0@, p.1))
}

/// What `resolve_ffi_transform` answers: built-ins, then the parent table.
pub open spec fn prelude_transform(name: Seq<char>, parent: UserResolver) -> Option<
    ForeignTransformObj,
> {
    if name == "base64"@ {
        Some(ForeignTransformObj::Base64Transform)
    } else if name == "gzip"@ {
        Some(ForeignTransformObj::GzipTransform)
    } else {
        crate::program::spec_assoc(assoc_model(parent.transforms@), name)
    }
}

/// What `resolve_ffi_type` answers: built-ins, then the parent table.
pub open spec fn prelude_type(name: Seq<char>, parent: UserResolver) -> Option<ForeignTypeObj> {
    if name == "v8"@ {
        Some(ForeignTypeObj::VarInt(ScalarType::I8))
    } else if name == "v16"@ {
        Some(ForeignTypeObj::VarInt(ScalarType::I16))
    } else if name == "v32"@ {
        Some(ForeignTypeObj::VarInt(ScalarType::I32))
    } else if name == "v64"@ {
        Some(ForeignTypeObj::VarInt(ScalarType::I64))
    } else if name == "v128"@ {
        Some(ForeignTypeObj::VarInt(ScalarType::I128))
    } else if name == "utf8"@ {
        Some(ForeignTypeObj::Utf8)
    } else if name == "utf16"@ {
        Some(ForeignTypeObj::Utf16)
    } else {
        crate::program::spec_assoc(assoc_model(parent.types@), name)
    }
}

/// What `resolve_ffi_function` answers: built-ins, then the parent table.
pub open spec fn prelude_function(name: Seq<char>, parent: UserResolver) -> Option<
    ForeignFunctionObj,
> {
    if name == "len"@ {
        Some(ForeignFunctionObj::LenFunction)
    } else if name == "pad"@ {
        Some(ForeignFunctionObj::PadFunction)
    } else {
        crate::program::spec_assoc(assoc_model(parent.functions@), name)
    }
}

/// String comparison with a view-level contract.
pub fn str_eq(a: &str, b: &str) -> (r: bool)
    ensures
        r == (a@ == b@),
{
    let sa: String = a.to_owned();
    let sb: String = b.to_owned();
    sa == sb
}

/// Index of the first entry whose name matches, with what that means for
/// the table's lookup model.
pub fn assoc_find<T>(table: &Vec<(String, T)>, name: &str) -> (r: Option<usize>)
    ensures
        match r {
            Some(i) => i < table@.len() && crate::program::spec_assoc(
                assoc_model(table@),
                name@,
            ) == Some(assoc_model(table@)[i as int].1),
            None => crate::program::spec_assoc(assoc_model(table@), name@) is None,
        },
{
    let ghost model = assoc_model(table@);
    proof {
        assert(model.skip(0) =~= model);
    }
    let mut i: usize = 0;
    while i < table.len()
        invariant
            i <= table@.len(),
            model == assoc_model(table@),
            model.len() == table@.len(),
            crate::program::spec_assoc(model, name@) == crate::program::spec_assoc(
                model.skip(i as int),
                name@,
            ),
        decreases table@.len() - i,
    {
        let entry = &table[i];
        proof {
            assert(model[i as int] == (table@[i as int].0@, table@[i as int].1));
            assert(model.skip(i as int)[0] == model[i as int]);
        }
        if str_eq(entry.0.as_str(), name) {
            return Some(i);
        }
        proof {
            assert(model.skip(i as int).drop_first() =~= model.skip(i + 1));
        }
        i = i + 1;
    }
    proof {
        assert(model.skip(i as int).len() == 0);
    }
    None
}

impl UserResolver {
    /// An empty chain end: every lookup answers "not found".
    pub fn new() -> (r: Self)
        ensures
            r.transforms@.len() == 0,
            r.types@.len() == 0,
            r.functions@.len() == 0,
            r.imports@.len() == 0,
    {
        UserResolver {
            transforms: Vec::new(),
            types: Vec::new(),
            functions: Vec::new(),
            imports: Vec::new(),
        }
    }
}

impl PreludeImportResolver {
    /// Import names are already canonical at this layer; the parent table
    /// keeps them as given.
    pub fn normalize_import(&self, import: &str) -> (r: Result<String, Error>)
        ensures
            r is Ok && r->Ok_0@ == import@,
    {
        Ok(import.to_owned())
    }

    /// Resolve an import name to its content through the parent table;
    /// "not found" is an answer, never an error.
    pub fn resolve_import(&self, import: &str) -> (r: Result<Option<String>, Error>)
        ensures
            r is Ok,
            match crate::program::spec_assoc(assoc_model(self.0.imports@), import@) {
                Some(content) => r->Ok_0 is Some && r->Ok_0->0@ == content@,
                None => r->Ok_0 is None,
            },
    {
        match assoc_find(&self.0.imports, import) {
            Some(i) => Ok(Some(crate::values::clone_string(&self.0.imports[i].1))),
            None => Ok(None),
        }
    }

    /// Built-in transforms `base64` and `gzip` are answered before the
    /// parent is consulted.
    pub fn resolve_ffi_transform(&self, transform: &str) -> (r: Result<
        Option<ForeignTransformObj>,
        Error,
    >)
        ensures
            r == Ok::<_, Error>(prelude_transform(transform@, self.0)),
    {
        if str_eq(transform, "base64") {
            Ok(Some(ForeignTransformObj::Base64Transform))
        } else if str_eq(transform, "gzip") {
            Ok(Some(ForeignTransformObj::GzipTransform))
        } else {
            match assoc_find(&self.0.transforms, transform) {
                Some(i) => Ok(Some(self.0.transforms[i].1)),
                None => Ok(None),
            }
        }
    }

    /// Built-in types `v8`..`v128`, `utf8` and `utf16` are answered before
    /// the parent is consulted.
    pub fn resolve_ffi_type(&self, import: &str) -> (r: Result<Option<ForeignTypeObj>, Error>)
        ensures
            r == Ok::<_, Error>(prelude_type(import@, self.0)),
    {
        if str_eq(import, "v8") {
            Ok(Some(ForeignTypeObj::VarInt(ScalarType::I8)))
        } else if str_eq(import, "v16") {
            Ok(Some(ForeignTypeObj::VarInt(ScalarType::I16)))
        } else if str_eq(import, "v32") {
            Ok(Some(ForeignTypeObj::VarInt(ScalarType::I32)))
        } else if str_eq(import, "v64") {
            Ok(Some(ForeignTypeObj::VarInt(ScalarType::I64)))
        } else if str_eq(import, "v128") {
            Ok(Some(ForeignTypeObj::VarInt(ScalarType::I128)))
        } else if str_eq(import, "utf8") {
            Ok(Some(ForeignTypeObj::Utf8))
        } else if str_eq(import, "utf16") {
            Ok(Some(ForeignTypeObj::Utf16))
        } else {
            match assoc_find(&self.0.types, import) {
                Some(i) => Ok(Some(self.0.types[i].1)),
                None => Ok(None),
            }
        }
    }

    /// Built-in functions `len` and `pad` are answered before the parent is
    /// consulted.
    pub fn resolve_ffi_function(&self, name: &str) -> (r: Result<
        Option<ForeignFunctionObj>,
        Error,
    >)
        ensures
            r == Ok::<_, Error>(prelude_function(name@, self.0)),
    {
        if str_eq(name, "len") {
            Ok(Some(ForeignFunctionObj::LenFunction))
        } else if str_eq(name, "pad") {
            Ok(Some(ForeignFunctionObj::PadFunction))
        } else {
            match assoc_find(&self.0.functions, name) {
                Some(i) => Ok(Some(self.0.functions[i].1)),
                None => Ok(None),
            }
        }
    }
}

/// A built-in name always resolves to the built-in capability, whatever the
/// user-supplied parent resolver defines under the same name.
pub proof fn lemma_builtin_transform_priority(parent: UserResolver)
    ensures
        prelude_transform("gzip"@, parent) == Some(ForeignTransformObj::GzipTransform),
        prelude_transform("base64"@, parent) == Some(ForeignTransformObj::Base64Transform),
{
    reveal_strlit("gzip");
    reveal_strlit("base64");
    assert("gzip"@.len() == 4);
    assert("base64"@.len() == 6);
}

/// A transform name that is no built-in and that the parent table does not
/// hold resolves to "not found", never to an error.
pub proof fn lemma_unknown_transform_not_found(parent: UserResolver, name: Seq<char>)
    requires
        name != "base64"@,
        name != "gzip"@,
        crate::program::spec_assoc(assoc_model(parent.transforms@), name) is None,
    ensures
        prelude_transform(name, parent) is None,
{
}

} // verus!
