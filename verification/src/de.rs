//! Generation of the dispatching decoder of a versioned container type.
//!
//! From a container's version declaration list this module writes, as source
//! text, the implementation that looks the container's version up in the
//! version map and routes each of the five access patterns to the decoder of
//! the declared historical type, or to the ordinary decoder of the container
//! itself.

use crate::declaration::{
    check_versions, declaration_errors, last_version, lemma_self_version, same_declaration,
    same_declarations, self_version, well_formed, DeclarationError, PathOrSelf, Version,
};
use crate::table::{
    arm_of_entry, arm_position, dispatch_arms, dispatch_table, historical_arms,
    lemma_historical_arms, Arm,
};
use crate::text::{decimal, to_decimal};
use vstd::prelude::*;

verus! {

/// The container that a decoder is generated for.
#[derive(Debug, Clone, PartialEq, Eq)]
pub struct Container {
    /// The container type's name.
    pub ident: String,
    /// The container's generic parameters, each as it is written.
    pub generics: Vec<String>,
    /// The version declaration list, where the type has one.
    pub versions: Option<Vec<Version>>,
}

/// The contexts in which a format decoder asks for a value of a type.
#[derive(Debug, Clone, Copy, PartialEq, Eq, Structural)]
pub enum AccessPattern {
    /// A value on its own.
    Value,
    /// An element of a sequence.
    Element,
    /// The value of a map entry whose key was read.
    MapValue,
    /// The key of a map entry.
    MapKey,
    /// The selected variant of an enum.
    Variant,
}

// The fixed text of the generated code. What lies between these pieces comes
// from the container: its name, its generic parameters, the version numbers
// and the paths of the historical types.

pub const WRAP_OPEN: &'static str =
    "#[doc(hidden)] #[allow(non_upper_case_globals, unused_attributes, unused_qualifications)] const _IMPL_DESERIALIZE_VERSIONED_FOR_";

/// The imports of the generated item. The decoder traits that the item names
/// are expected under `::serde_version`, in the crate that offers them for
/// serde's decoders together with this library's items.
pub const WRAP_USES: &'static str =
    ": () = { use ::serde as _serde; use ::serde_version as _serde_version; ";

pub const WRAP_CLOSE: &'static str = "} };";

pub const IMPL_OPEN: &'static str = "impl<'de";

pub const SEPARATOR: &'static str = ", ";

pub const IMPL_FOR: &'static str = "> _serde_version::DeserializeVersioned<'de> for ";

pub const ARGS_OPEN: &'static str = "<";

pub const ARGS_CLOSE: &'static str = ">";

pub const IMPL_BODY: &'static str = " { ";

pub const LAST_VERSION_OPEN: &'static str = "#[inline] fn last_version() -> usize { ";

pub const LAST_VERSION_CLOSE: &'static str = "usize } ";

pub const INLINE: &'static str = "#[inline] ";

pub const NOTHING: &'static str = "";

pub const METHOD_OPEN: &'static str = "fn ";

pub const METHOD_PARAMS: &'static str = ", __VM: _serde_version::VersionMap>(";

pub const METHOD_COLON: &'static str = ": ";

pub const METHOD_RESULT: &'static str = ", __version_map: __VM) -> std::result::Result<";

pub const METHOD_ERROR: &'static str = ", _serde_version::Error<";

pub const METHOD_WHERE: &'static str = "::Error>> where ";

pub const METHOD_MATCH: &'static str =
    ", { match __version_map.get(std::any::type_name::<Self>()) { ";

pub const METHOD_CLOSE: &'static str = "} } ";

pub const ARM_OPEN: &'static str = "Some(";

pub const ARM_TYPE: &'static str =
    "usize) => std::result::Result::map(<::core::marker::PhantomData<";

pub const ARM_SEED: &'static str = "> as _serde_version::DeserializeVersionedSeed<'_>>::";

pub const ARM_CALL: &'static str = "(::core::marker::PhantomData, ";

pub const ARM_CONVERT: &'static str = ", __version_map), ";

pub const ARM_CLOSE: &'static str = "), ";

pub const CURRENT_OPEN: &'static str = "None | Some(";

pub const CURRENT_ARROW: &'static str = "usize) => ";

pub const CURRENT_CLOSE: &'static str = ".map_err(_serde_version::Error::DeserializeError), ";

pub const UNKNOWN_ARM: &'static str =
    "Some(v) => Err(_serde_version::Error::InvalidVersionError(_serde_version::InvalidVersionError { version: v, type_id: std::any::type_name::<Self>().to_owned() })), ";

pub const NAME_VALUE: &'static str = "deserialize_versioned";

pub const NAME_ELEMENT: &'static str = "next_element";

pub const NAME_MAP_VALUE: &'static str = "next_value";

pub const NAME_MAP_KEY: &'static str = "next_key";

pub const NAME_VARIANT: &'static str = "variant";

pub const ACCESSOR_VALUE: &'static str = "__deserializer";

pub const ACCESSOR_SEQ: &'static str = "__seq_access";

pub const ACCESSOR_MAP: &'static str = "__map_access";

pub const ACCESSOR_ENUM: &'static str = "__enum_access";

pub const PARAM_VALUE: &'static str = "__D";

pub const PARAM_SEQ: &'static str = "__S";

pub const PARAM_MAP: &'static str = "__M";

pub const PARAM_ENUM: &'static str = "__E";

pub const BORROWED_SEQ: &'static str = "&mut __S";

pub const BORROWED_MAP: &'static str = "&mut __M";

pub const BOUND_VALUE: &'static str = "_serde::Deserializer<'de>";

pub const BOUND_SEQ: &'static str = "_serde::de::SeqAccess<'de>";

pub const BOUND_MAP: &'static str = "_serde::de::MapAccess<'de>";

pub const BOUND_ENUM: &'static str = "_serde::de::EnumAccess<'de>";

pub const OUTPUT_ONE: &'static str = "Self";

pub const OUTPUT_OPTIONAL: &'static str = "Option<Self>";

pub const OUTPUT_VARIANT: &'static str = "(Self, __E::Variant)";

pub const CONVERT_ONE: &'static str = "std::convert::Into::into";

pub const CONVERT_OPTIONAL: &'static str =
    "|v| std::option::Option::map(v, std::convert::Into::into)";

pub const CONVERT_VARIANT: &'static str =
    "|(v, variant)| (std::convert::Into::into(v), variant)";

pub const ORDINARY_VALUE: &'static str =
    "<Self as _serde::Deserialize<'de>>::deserialize(__deserializer)";

pub const ORDINARY_ELEMENT: &'static str =
    "<__S as _serde::de::SeqAccess<'de>>::next_element_seed(__seq_access, std::marker::PhantomData)";

pub const ORDINARY_MAP_VALUE: &'static str =
    "<__M as _serde::de::MapAccess<'de>>::next_value_seed(__map_access, std::marker::PhantomData)";

pub const ORDINARY_MAP_KEY: &'static str =
    "<__M as _serde::de::MapAccess<'de>>::next_key_seed(__map_access, std::marker::PhantomData)";

pub const ORDINARY_VARIANT: &'static str =
    "<__E as _serde::de::EnumAccess<'de>>::variant_seed(__enum_access, std::marker::PhantomData)";

impl AccessPattern {
    /// The name of the entry point that serves this access pattern.
    pub open spec fn method_name_text(self) -> Seq<char> {
        match self {
            AccessPattern::Value => NAME_VALUE@,
            AccessPattern::Element => NAME_ELEMENT@,
            AccessPattern::MapValue => NAME_MAP_VALUE@,
            AccessPattern::MapKey => NAME_MAP_KEY@,
            AccessPattern::Variant => NAME_VARIANT@,
        }
    }

    /// The name of the argument that the format decoder is handed in by.
    pub open spec fn accessor_text(self) -> Seq<char> {
        match self {
            AccessPattern::Value => ACCESSOR_VALUE@,
            AccessPattern::Element => ACCESSOR_SEQ@,
            AccessPattern::MapValue => ACCESSOR_MAP@,
            AccessPattern::MapKey => ACCESSOR_MAP@,
            AccessPattern::Variant => ACCESSOR_ENUM@,
        }
    }

    /// The type parameter that stands for the format decoder.
    pub open spec fn param_text(self) -> Seq<char> {
        match self {
            AccessPattern::Value => PARAM_VALUE@,
            AccessPattern::Element => PARAM_SEQ@,
            AccessPattern::MapValue => PARAM_MAP@,
            AccessPattern::MapKey => PARAM_MAP@,
            AccessPattern::Variant => PARAM_ENUM@,
        }
    }

    /// The type of the argument that the format decoder is handed in by.
    pub open spec fn accessor_type_text(self) -> Seq<char> {
        match self {
            AccessPattern::Value => PARAM_VALUE@,
            AccessPattern::Element => BORROWED_SEQ@,
            AccessPattern::MapValue => BORROWED_MAP@,
            AccessPattern::MapKey => BORROWED_MAP@,
            AccessPattern::Variant => PARAM_ENUM@,
        }
    }

    /// The bound that the format decoder's type parameter carries.
    pub open spec fn bound_text(self) -> Seq<char> {
        match self {
            AccessPattern::Value => BOUND_VALUE@,
            AccessPattern::Element => BOUND_SEQ@,
            AccessPattern::MapValue => BOUND_MAP@,
            AccessPattern::MapKey => BOUND_MAP@,
            AccessPattern::Variant => BOUND_ENUM@,
        }
    }

    /// The shape in which the entry point hands the decoded value out.
    pub open spec fn output_text(self) -> Seq<char> {
        match self {
            AccessPattern::Value => OUTPUT_ONE@,
            AccessPattern::Element => OUTPUT_OPTIONAL@,
            AccessPattern::MapValue => OUTPUT_ONE@,
            AccessPattern::MapKey => OUTPUT_OPTIONAL@,
            AccessPattern::Variant => OUTPUT_VARIANT@,
        }
    }

    /// The conversion from a historical type's output into the container's.
    pub open spec fn convert_text(self) -> Seq<char> {
        match self {
            AccessPattern::Value => CONVERT_ONE@,
            AccessPattern::Element => CONVERT_OPTIONAL@,
            AccessPattern::MapValue => CONVERT_ONE@,
            AccessPattern::MapKey => CONVERT_OPTIONAL@,
            AccessPattern::Variant => CONVERT_VARIANT@,
        }
    }

    /// The call that decodes the container itself by the ordinary rules.
    pub open spec fn ordinary_text(self) -> Seq<char> {
        match self {
            AccessPattern::Value => ORDINARY_VALUE@,
            AccessPattern::Element => ORDINARY_ELEMENT@,
            AccessPattern::MapValue => ORDINARY_MAP_VALUE@,
            AccessPattern::MapKey => ORDINARY_MAP_KEY@,
            AccessPattern::Variant => ORDINARY_VARIANT@,
        }
    }

    /// The attribute in front of the entry point.
    pub open spec fn inline_text(self) -> Seq<char> {
        match self {
            AccessPattern::Value => NOTHING@,
            _ => INLINE@,
        }
    }

    /// The attribute in front of the entry point.
    pub fn inline(self) -> (text: &'static str)
        ensures
            text@ == self.inline_text(),
    {
        match self {
            AccessPattern::Value => NOTHING,
            _ => INLINE,
        }
    }

    /// The name of the entry point that serves this access pattern.
    pub fn method_name(self) -> (text: &'static str)
        ensures
            text@ == self.method_name_text(),
    {
        match self {
            AccessPattern::Value => NAME_VALUE,
            AccessPattern::Element => NAME_ELEMENT,
            AccessPattern::MapValue => NAME_MAP_VALUE,
            AccessPattern::MapKey => NAME_MAP_KEY,
            AccessPattern::Variant => NAME_VARIANT,
        }
    }

    /// The name of the argument that the format decoder is handed in by.
    pub fn accessor(self) -> (text: &'static str)
        ensures
            text@ == self.accessor_text(),
    {
        match self {
            AccessPattern::Value => ACCESSOR_VALUE,
            AccessPattern::Element => ACCESSOR_SEQ,
            AccessPattern::MapValue => ACCESSOR_MAP,
            AccessPattern::MapKey => ACCESSOR_MAP,
            AccessPattern::Variant => ACCESSOR_ENUM,
        }
    }

    /// The type parameter that stands for the format decoder.
    pub fn param(self) -> (text: &'static str)
        ensures
            text@ == self.param_text(),
    {
        match self {
            AccessPattern::Value => PARAM_VALUE,
            AccessPattern::Element => PARAM_SEQ,
            AccessPattern::MapValue => PARAM_MAP,
            AccessPattern::MapKey => PARAM_MAP,
            AccessPattern::Variant => PARAM_ENUM,
        }
    }

    /// The type of the argument that the format decoder is handed in by.
    pub fn accessor_type(self) -> (text: &'static str)
        ensures
            text@ == self.accessor_type_text(),
    {
        match self {
            AccessPattern::Value => PARAM_VALUE,
            AccessPattern::Element => BORROWED_SEQ,
            AccessPattern::MapValue => BORROWED_MAP,
            AccessPattern::MapKey => BORROWED_MAP,
            AccessPattern::Variant => PARAM_ENUM,
        }
    }

    /// The bound that the format decoder's type parameter carries.
    pub fn bound(self) -> (text: &'static str)
        ensures
            text@ == self.bound_text(),
    {
        match self {
            AccessPattern::Value => BOUND_VALUE,
            AccessPattern::Element => BOUND_SEQ,
            AccessPattern::MapValue => BOUND_MAP,
            AccessPattern::MapKey => BOUND_MAP,
            AccessPattern::Variant => BOUND_ENUM,
        }
    }

    /// The shape in which the entry point hands the decoded value out.
    pub fn output(self) -> (text: &'static str)
        ensures
            text@ == self.output_text(),
    {
        match self {
            AccessPattern::Value => OUTPUT_ONE,
            AccessPattern::Element => OUTPUT_OPTIONAL,
            AccessPattern::MapValue => OUTPUT_ONE,
            AccessPattern::MapKey => OUTPUT_OPTIONAL,
            AccessPattern::Variant => OUTPUT_VARIANT,
        }
    }

    /// The conversion from a historical type's output into the container's.
    pub fn convert(self) -> (text: &'static str)
        ensures
            text@ == self.convert_text(),
    {
        match self {
            AccessPattern::Value => CONVERT_ONE,
            AccessPattern::Element => CONVERT_OPTIONAL,
            AccessPattern::MapValue => CONVERT_ONE,
            AccessPattern::MapKey => CONVERT_OPTIONAL,
            AccessPattern::Variant => CONVERT_VARIANT,
        }
    }

    /// The call that decodes the container itself by the ordinary rules.
    pub fn ordinary(self) -> (text: &'static str)
        ensures
            text@ == self.ordinary_text(),
    {
        match self {
            AccessPattern::Value => ORDINARY_VALUE,
            AccessPattern::Element => ORDINARY_ELEMENT,
            AccessPattern::MapValue => ORDINARY_MAP_VALUE,
            AccessPattern::MapKey => ORDINARY_MAP_KEY,
            AccessPattern::Variant => ORDINARY_VARIANT,
        }
    }
}

/// The match arm that routes the version number `index` to the historical
/// type at `path`.
pub open spec fn arm_text(pattern: AccessPattern, index: usize, path: Seq<char>) -> Seq<char> {
    ARM_OPEN@ + decimal(index as nat) + ARM_TYPE@ + path + ARM_SEED@ + pattern.method_name_text()
        + ARM_CALL@ + pattern.accessor_text() + ARM_CONVERT@ + pattern.convert_text() + ARM_CLOSE@
}

/// The arm that decodes the container itself: for an absent version and for
/// the current one.
pub open spec fn current_arm_text(pattern: AccessPattern, last: usize) -> Seq<char> {
    CURRENT_OPEN@ + decimal(last as nat) + CURRENT_ARROW@ + pattern.ordinary_text()
        + CURRENT_CLOSE@
}

/// The path of the historical type that an entry names.
pub open spec fn path_text(entry: Version) -> Seq<char> {
    match entry.path {
        PathOrSelf::Path(path) => path@,
        PathOrSelf::SelfType => NOTHING@,
    }
}

/// One arm of the dispatch table, written out for an entry point.
pub open spec fn table_arm_text(pattern: AccessPattern, entries: Seq<Version>, arm: Arm) -> Seq<
    char,
> {
    match arm {
        Arm::Historical { index, position } => arm_text(
            pattern,
            index,
            path_text(entries[position as int]),
        ),
        Arm::Current { index } => current_arm_text(pattern, index),
        Arm::Unknown => UNKNOWN_ARM@,
    }
}

/// The arms of a table, written out in their order.
pub open spec fn arms_text(pattern: AccessPattern, entries: Seq<Version>, arms: Seq<Arm>) -> Seq<
    char,
>
    decreases arms.len(),
{
    if arms.len() == 0 {
        Seq::<char>::empty()
    } else {
        arms_text(pattern, entries, arms.drop_last()) + table_arm_text(
            pattern,
            entries,
            arms.last(),
        )
    }
}

/// The head of an entry point, up to the match on what the version map
/// holds.
pub open spec fn method_head_text(pattern: AccessPattern) -> Seq<char> {
    pattern.inline_text() + METHOD_OPEN@ + pattern.method_name_text() + ARGS_OPEN@
        + pattern.param_text() + METHOD_PARAMS@ + pattern.accessor_text() + METHOD_COLON@
        + pattern.accessor_type_text() + METHOD_RESULT@ + pattern.output_text() + METHOD_ERROR@
        + pattern.param_text() + METHOD_WHERE@ + pattern.param_text() + METHOD_COLON@
        + pattern.bound_text() + METHOD_MATCH@
}

/// The entry point for one access pattern: a match with the arms of the
/// dispatch table.
pub open spec fn method_text(pattern: AccessPattern, entries: Seq<Version>, last: usize) -> Seq<
    char,
> {
    method_head_text(pattern) + arms_text(pattern, entries, dispatch_arms(entries, last))
        + METHOD_CLOSE@
}

/// Each item with a separator in front of it.
pub open spec fn separated_text(items: Seq<String>) -> Seq<char>
    decreases items.len(),
{
    if items.len() == 0 {
        Seq::<char>::empty()
    } else {
        separated_text(items.drop_last()) + SEPARATOR@ + items.last()@
    }
}

/// The generic arguments behind the container's name: nothing where it has
/// no parameters.
pub open spec fn type_args_text(generics: Seq<String>) -> Seq<char> {
    if generics.len() == 0 {
        Seq::<char>::empty()
    } else {
        ARGS_OPEN@ + generics[0]@ + separated_text(generics.subrange(1, generics.len() as int))
            + ARGS_CLOSE@
    }
}

/// The query for the container's current version.
pub open spec fn last_version_text(last: usize) -> Seq<char> {
    LAST_VERSION_OPEN@ + decimal(last as nat) + LAST_VERSION_CLOSE@
}

/// The whole generated item: the implementation with its five entry points
/// and the version query, inside an anonymous constant.
pub open spec fn impl_text(
    ident: Seq<char>,
    generics: Seq<String>,
    entries: Seq<Version>,
    last: usize,
) -> Seq<char> {
    WRAP_OPEN@ + ident + WRAP_USES@ + IMPL_OPEN@ + separated_text(generics) + IMPL_FOR@ + ident
        + type_args_text(generics) + IMPL_BODY@ + method_text(AccessPattern::Value, entries, last)
        + method_text(AccessPattern::Element, entries, last) + method_text(
        AccessPattern::MapValue,
        entries,
        last,
    ) + method_text(AccessPattern::MapKey, entries, last) + method_text(
        AccessPattern::Variant,
        entries,
        last,
    ) + last_version_text(last) + WRAP_CLOSE@
}

/// What is generated for a container: nothing where it declares no versions.
pub open spec fn expansion_text(input: Container) -> Seq<char> {
    match input.versions {
        None => Seq::<char>::empty(),
        Some(entries) => impl_text(
            input.ident@,
            input.generics@,
            entries@,
            self_version(entries@).unwrap(),
        ),
    }
}

/// Writes the match arm that routes `index` to the historical type at `path`.
fn arm(pattern: AccessPattern, index: usize, path: &str) -> (text: String)
    ensures
        text@ == arm_text(pattern, index, path@),
{
    let mut text = String::from_str(ARM_OPEN);
    text.append(to_decimal(index).as_str());
    text.append(ARM_TYPE);
    text.append(path);
    text.append(ARM_SEED);
    text.append(pattern.method_name());
    text.append(ARM_CALL);
    text.append(pattern.accessor());
    text.append(ARM_CONVERT);
    text.append(pattern.convert());
    text.append(ARM_CLOSE);
    text
}

/// Writes the arms of a dispatch table for one entry point.
fn arms(pattern: AccessPattern, entries: &Vec<Version>, table: &Vec<Arm>) -> (text: String)
    requires
        forall|k: int| 0 <= k < table.len() ==> arm_position(#[trigger] table[k]) < entries.len(),
    ensures
        text@ == arms_text(pattern, entries@, table@),
{
    let mut text = String::new();
    let mut i: usize = 0;
    while i < table.len()
        invariant
            0 <= i <= table.len(),
            forall|k: int|
                0 <= k < table.len() ==> arm_position(#[trigger] table[k]) < entries.len(),
            text@ == arms_text(pattern, entries@, table@.take(i as int)),
        decreases table.len() - i,
    {
        let ghost before = text@;
        assert(table@.take(i + 1).drop_last() =~= table@.take(i as int));
        assert(table@.take(i + 1).last() == table[i as int]);
        match table[i] {
            Arm::Historical { index, position } => {
                assert(arm_position(table[i as int]) == position);
                let path = match &entries[position].path {
                    PathOrSelf::Path(path) => path.as_str(),
                    PathOrSelf::SelfType => NOTHING,
                };
                text.append(arm(pattern, index, path).as_str());
            },
            Arm::Current { index } => {
                let mut current = String::from_str(CURRENT_OPEN);
                current.append(to_decimal(index).as_str());
                current.append(CURRENT_ARROW);
                current.append(pattern.ordinary());
                current.append(CURRENT_CLOSE);
                text.append(current.as_str());
            },
            Arm::Unknown => {
                text.append(UNKNOWN_ARM);
            },
        }
        assert(text@ == before + table_arm_text(pattern, entries@, table[i as int]));
        i += 1;
    }
    assert(table@.take(i as int) =~= table@);
    text
}

/// Writes the entry point for one access pattern from the dispatch table.
fn method(pattern: AccessPattern, entries: &Vec<Version>, table: &Vec<Arm>) -> (text: String)
    requires
        forall|k: int| 0 <= k < table.len() ==> arm_position(#[trigger] table[k]) < entries.len(),
    ensures
        text@ == method_head_text(pattern) + arms_text(pattern, entries@, table@) + METHOD_CLOSE@,
{
    let mut text = String::from_str(pattern.inline());
    text.append(METHOD_OPEN);
    text.append(pattern.method_name());
    text.append(ARGS_OPEN);
    text.append(pattern.param());
    text.append(METHOD_PARAMS);
    text.append(pattern.accessor());
    text.append(METHOD_COLON);
    text.append(pattern.accessor_type());
    text.append(METHOD_RESULT);
    text.append(pattern.output());
    text.append(METHOD_ERROR);
    text.append(pattern.param());
    text.append(METHOD_WHERE);
    text.append(pattern.param());
    text.append(METHOD_COLON);
    text.append(pattern.bound());
    text.append(METHOD_MATCH);
    text.append(arms(pattern, entries, table).as_str());
    text.append(METHOD_CLOSE);
    text
}

/// Writes the items from position `from` on, each with a separator in front
/// of it.
fn separated(items: &Vec<String>, from: usize) -> (text: String)
    requires
        from <= items.len(),
    ensures
        text@ == separated_text(items@.subrange(from as int, items.len() as int)),
{
    let mut text = String::new();
    let mut i: usize = from;
    while i < items.len()
        invariant
            from <= i <= items.len(),
            text@ == separated_text(items@.subrange(from as int, i as int)),
        decreases items.len() - i,
    {
        assert(items@.subrange(from as int, i + 1).drop_last() =~= items@.subrange(
            from as int,
            i as int,
        ));
        text.append(SEPARATOR);
        text.append(items[i].as_str());
        i += 1;
    }
    text
}

/// Writes the generic arguments behind the container's name.
fn type_args(generics: &Vec<String>) -> (text: String)
    ensures
        text@ == type_args_text(generics@),
{
    if generics.len() == 0 {
        String::new()
    } else {
        let mut text = String::from_str(ARGS_OPEN);
        text.append(generics[0].as_str());
        text.append(separated(generics, 1).as_str());
        text.append(ARGS_CLOSE);
        text
    }
}

/// Writes the implementation for a container whose current version is `last`.
pub fn render_impl(ident: &str, generics: &Vec<String>, entries: &Vec<Version>, last: usize) -> (code:
    String)
    ensures
        code@ == impl_text(ident@, generics@, entries@, last),
{
    let table = dispatch_table(entries, last);
    proof {
        assert(entries@.len() == entries.len());
        lemma_table_positions(entries@, last);
    }
    let mut query = String::from_str(LAST_VERSION_OPEN);
    query.append(to_decimal(last).as_str());
    query.append(LAST_VERSION_CLOSE);
    assert(generics@.subrange(0, generics.len() as int) =~= generics@);
    let mut code = String::from_str(WRAP_OPEN);
    code.append(ident);
    code.append(WRAP_USES);
    code.append(IMPL_OPEN);
    code.append(separated(generics, 0).as_str());
    code.append(IMPL_FOR);
    code.append(ident);
    code.append(type_args(generics).as_str());
    code.append(IMPL_BODY);
    code.append(method(AccessPattern::Value, entries, &table).as_str());
    code.append(method(AccessPattern::Element, entries, &table).as_str());
    code.append(method(AccessPattern::MapValue, entries, &table).as_str());
    code.append(method(AccessPattern::MapKey, entries, &table).as_str());
    code.append(method(AccessPattern::Variant, entries, &table).as_str());
    code.append(query.as_str());
    code.append(WRAP_CLOSE);
    code
}

/// Generates the dispatching decoder of a container.
///
/// A container without a declaration list gets nothing generated: it is
/// decoded by the ordinary rules alone. A declaration list that is not well
/// formed is refused with every fault it has. For a well-formed list the
/// result is the implementation that routes each declared historical version
/// to its type, the absent and the current version to the container itself,
/// and refuses every other version.
pub fn expand_derive_deserialize_versioned(input: &Container) -> (result: Result<
    String,
    Vec<DeclarationError>,
>)
    ensures
        match input.versions {
            Some(entries) if !well_formed(entries@) => result matches Err(errors) && errors@
                == declaration_errors(entries@) && errors@.len() > 0,
            _ => result matches Ok(code) && code@ == expansion_text(*input),
        },
{
    match &input.versions {
        None => Ok(String::new()),
        Some(entries) => {
            let errors = check_versions(entries);
            proof {
                lemma_self_version(entries@);
            }
            match last_version(entries) {
                Some(last) if errors.len() == 0 => Ok(
                    render_impl(input.ident.as_str(), &input.generics, entries, last),
                ),
                _ => Err(errors),
            }
        },
    }
}

/// Every arm of a dispatch table stands for an entry of its list, or for none.
proof fn lemma_table_positions(entries: Seq<Version>, last: usize)
    requires
        entries.len() <= usize::MAX,
    ensures
        forall|k: int|
            0 <= k < dispatch_arms(entries, last).len() ==> arm_position(
                #[trigger] dispatch_arms(entries, last)[k],
            ) < entries.len(),
{
    let historical = historical_arms(entries, last);
    let arms = dispatch_arms(entries, last);
    lemma_historical_arms(entries, last);
    assert forall|k: int| 0 <= k < arms.len() implies arm_position(#[trigger] arms[k])
        < entries.len() by {
        if k < historical.len() {
            assert(arms[k] == historical[k]);
            assert(arm_of_entry(entries, last, historical[k]));
        }
    }
}

/// Lists that differ only in the default flags of their entries generate the
/// same code: the flag is the historical type's own business. The lists are
/// ones that memory can hold.
pub proof fn lemma_default_flag_not_generated(
    ident: Seq<char>,
    generics: Seq<String>,
    entries: Seq<Version>,
    flagged: Seq<Version>,
    last: usize,
)
    requires
        entries.len() <= usize::MAX,
        same_declarations(entries, flagged),
    ensures
        dispatch_arms(entries, last) == dispatch_arms(flagged, last),
        impl_text(ident, generics, entries, last) == impl_text(ident, generics, flagged, last),
{
    lemma_same_table(entries, flagged, last);
    lemma_table_positions(entries, last);
    let arms = dispatch_arms(entries, last);
    lemma_same_arms(AccessPattern::Value, entries, flagged, arms);
    lemma_same_arms(AccessPattern::Element, entries, flagged, arms);
    lemma_same_arms(AccessPattern::MapValue, entries, flagged, arms);
    lemma_same_arms(AccessPattern::MapKey, entries, flagged, arms);
    lemma_same_arms(AccessPattern::Variant, entries, flagged, arms);
}

/// Lists that make the same declarations have the same historical arms.
proof fn lemma_same_table(entries: Seq<Version>, flagged: Seq<Version>, last: usize)
    requires
        same_declarations(entries, flagged),
    ensures
        historical_arms(entries, last) == historical_arms(flagged, last),
    decreases entries.len(),
{
    if entries.len() > 0 {
        let n = entries.len() - 1;
        assert(same_declaration(entries[n], flagged[n]));
        assert forall|i: int| 0 <= i < n implies same_declaration(
            #[trigger] entries.drop_last()[i],
            flagged.drop_last()[i],
        ) by {
            assert(same_declaration(entries[i], flagged[i]));
        }
        lemma_same_table(entries.drop_last(), flagged.drop_last(), last);
    }
}

/// A table is written out alike for lists that make the same declarations.
proof fn lemma_same_arms(
    pattern: AccessPattern,
    entries: Seq<Version>,
    flagged: Seq<Version>,
    arms: Seq<Arm>,
)
    requires
        same_declarations(entries, flagged),
        forall|k: int| 0 <= k < arms.len() ==> arm_position(#[trigger] arms[k]) < entries.len(),
    ensures
        arms_text(pattern, entries, arms) == arms_text(pattern, flagged, arms),
    decreases arms.len(),
{
    if arms.len() > 0 {
        let n = arms.len() - 1;
        assert(arm_position(arms[n]) < entries.len());
        assert forall|k: int| 0 <= k < n implies arm_position(#[trigger] arms.drop_last()[k])
            < entries.len() by {
            assert(arms.drop_last()[k] == arms[k]);
        }
        lemma_same_arms(pattern, entries, flagged, arms.drop_last());
        if let Arm::Historical { index, position } = arms[n] {
            assert(same_declaration(entries[position as int], flagged[position as int]));
        }
    }
}

} // verus!
