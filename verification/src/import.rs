//! Imports: the synthetic import statement, the convention for what may be loaded,
//! and the namespace of template functions that an import brings.

use vstd::prelude::*;
use crate::assembler::assemble;
use crate::assembler::assembled;
use crate::assembler::keyword_models;
use crate::assembler::Keyword;
use crate::assembler::KeywordModel;
use crate::error::import_refused;
use crate::error::EngineError;
use crate::error::ErrorModel;
use crate::error::TranslationError;
use crate::node::call_node;
use crate::node::NodeModel;
use crate::node::SyntheticNode;
use crate::text::ends_with;
use crate::text::has_suffix;
use crate::text::same_text;
use crate::value::texts;

verus! {

/// A module may be loaded if its identifier ends in the import-file suffix.
pub open spec fn is_supported(module_id: Seq<char>) -> bool {
    ends_with(module_id, ".gni"@)
}

/// The statement `import("module_id")`: one string-literal argument and no body.
pub open spec fn import_node(module_id: Seq<char>) -> NodeModel {
    call_node("import"@, module_id, None)
}

/// The names of `names` without repetitions, each at the place of its first
/// occurrence.
pub open spec fn first_occurrences(names: Seq<Seq<char>>) -> Seq<Seq<char>>
    decreases names.len(),
{
    if names.len() == 0 {
        Seq::empty()
    } else {
        let earlier = first_occurrences(names.drop_last());
        if earlier.contains(names.last()) {
            earlier
        } else {
            earlier.push(names.last())
        }
    }
}

/// What the bridge makes of the engine's answer to an import: the engine's
/// message, or the names of the namespace.
pub open spec fn import_result(report: EngineError, template_names: Seq<Seq<char>>) -> Result<
    Seq<Seq<char>>,
    ErrorModel,
> {
    if report.has_error {
        Err(import_refused(report.message@))
    } else {
        Ok(first_occurrences(template_names))
    }
}

/// What a call of the stand-in for the template `template_name` gives: the same as
/// a call of a declaration function of that name.
pub open spec fn template_call(template_name: Seq<char>, keywords: Seq<KeywordModel>) -> Result<
    NodeModel,
    ErrorModel,
> {
    assembled(template_name, keywords)
}

/// Tells whether a module identifier follows the supported convention.
pub fn is_supported_load(module_id: &str) -> (supported: bool)
    ensures
        supported == is_supported(module_id@),
{
    has_suffix(module_id, ".gni")
}

/// Builds the statement `import("module_id")`.
pub fn import_call(module_id: &str) -> (tree: SyntheticNode)
    ensures
        tree@ == import_node(module_id@),
{
    SyntheticNode::call("import", module_id, None)
}

/// The stand-in for one template of an imported module: called with keywords, it
/// declares a target of that template.
#[derive(Debug, PartialEq, Eq)]
pub struct TemplateFunction {
    name: String,
}

impl View for TemplateFunction {
    type V = Seq<char>;

    closed spec fn view(&self) -> Seq<char> {
        self.name@
    }
}

impl TemplateFunction {
    /// The template's name.
    pub fn name(&self) -> (name: &str)
        ensures
            name@ == self@,
    {
        self.name.as_str()
    }

    /// Assembles the call of this template with `keywords`, as a call of a
    /// built-in declaration function of that name would be.
    pub fn declare(&self, keywords: &Vec<Keyword>) -> (outcome: Result<
        SyntheticNode,
        TranslationError,
    >)
        ensures
            match outcome {
                Ok(tree) => template_call(self@, keyword_models(keywords@)) == Ok::<
                    NodeModel,
                    ErrorModel,
                >(tree@),
                Err(error) => template_call(self@, keyword_models(keywords@)) == Err::<
                    NodeModel,
                    ErrorModel,
                >(error@),
            },
    {
        assemble(self.name.as_str(), keywords)
    }
}

/// The names of `functions`, in order.
pub open spec fn function_names(functions: Seq<TemplateFunction>) -> Seq<Seq<char>> {
    functions.map_values(|function: TemplateFunction| function@)
}

/// The template functions that one import brought, by name. It is made once and
/// offers nothing that changes it.
#[derive(Debug, PartialEq, Eq)]
pub struct TemplateNamespace {
    functions: Vec<TemplateFunction>,
}

impl View for TemplateNamespace {
    type V = Seq<Seq<char>>;

    closed spec fn view(&self) -> Seq<Seq<char>> {
        function_names(self.functions@)
    }
}

impl TemplateNamespace {
    #[verifier::type_invariant]
    spec fn distinct(self) -> bool {
        function_names(self.functions@).no_duplicates()
    }

    /// Makes the namespace of the given template names: one function per name,
    /// however often the name was given.
    pub fn from_names(template_names: &Vec<String>) -> (namespace: TemplateNamespace)
        ensures
            namespace@ == first_occurrences(texts(template_names@)),
            namespace@.no_duplicates(),
    {
        let ghost all = texts(template_names@);
        let mut functions: Vec<TemplateFunction> = Vec::new();
        let mut index: usize = 0;
        while index < template_names.len()
            invariant
                index <= template_names.len(),
                all == texts(template_names@),
                function_names(functions@) == first_occurrences(all.take(index as int)),
                function_names(functions@).no_duplicates(),
            decreases template_names.len() - index,
        {
            let name = &template_names[index];
            let ghost names = function_names(functions@);
            proof {
                let upto = all.take(index + 1);
                assert(upto.drop_last() =~= all.take(index as int));
            }
            let mut known = false;
            let mut probe: usize = 0;
            while probe < functions.len()
                invariant
                    probe <= functions.len(),
                    names == function_names(functions@),
                    known == names.take(probe as int).contains(name@),
                decreases functions.len() - probe,
            {
                proof {
                    let seen = names.take(probe as int);
                    assert(names.take(probe + 1) =~= seen.push(names[probe as int]));
                    lemma_contains_push(seen, names[probe as int], name@);
                }
                if same_text(functions[probe].name.as_str(), name.as_str()) {
                    known = true;
                }
                probe += 1;
            }
            assert(names.take(probe as int) =~= names);
            if !known {
                functions.push(TemplateFunction { name: name.clone() });
            }
            index += 1;
        }
        assert(all.take(index as int) =~= all);
        TemplateNamespace { functions }
    }

    /// The number of template functions.
    pub fn len(&self) -> (count: usize)
        ensures
            count == self@.len(),
    {
        self.functions.len()
    }

    /// The template functions, in the order in which their names first came.
    pub fn functions(&self) -> (functions: &Vec<TemplateFunction>)
        ensures
            function_names(functions@) == self@,
            self@.no_duplicates(),
    {
        proof {
            use_type_invariant(self);
        }
        &self.functions
    }

    /// Finds the template function of the given name.
    pub fn get(&self, name: &str) -> (found: Option<&TemplateFunction>)
        ensures
            match found {
                Some(function) => function@ == name@ && self@.contains(name@),
                None => !self@.contains(name@),
            },
    {
        let mut index: usize = 0;
        while index < self.functions.len()
            invariant
                index <= self.functions.len(),
                forall|i: int| 0 <= i < index ==> function_names(self.functions@)[i] != name@,
            decreases self.functions.len() - index,
        {
            assert(function_names(self.functions@)[index as int] == self.functions[index as int]@);
            if same_text(self.functions[index].name.as_str(), name) {
                return Some(&self.functions[index]);
            }
            index += 1;
        }
        None
    }
}

/// Reads the engine's answer to an import: the engine's message where it reports
/// an error, else the namespace of the template names it returned.
pub fn import_outcome(report: &EngineError, template_names: &Vec<String>) -> (outcome: Result<
    TemplateNamespace,
    TranslationError,
>)
    ensures
        match outcome {
            Ok(namespace) => import_result(*report, texts(template_names@)) == Ok::<
                Seq<Seq<char>>,
                ErrorModel,
            >(namespace@),
            Err(error) => import_result(*report, texts(template_names@)) == Err::<
                Seq<Seq<char>>,
                ErrorModel,
            >(error@),
        },
{
    if report.has_error {
        Err(TranslationError::for_import_refused(report.message.as_str()))
    } else {
        Ok(TemplateNamespace::from_names(template_names))
    }
}

/// A name is in a list with one more item if it is in the list or is that item.
proof fn lemma_contains_push(names: Seq<Seq<char>>, last: Seq<char>, name: Seq<char>)
    ensures
        names.push(last).contains(name) <==> names.contains(name) || last == name,
{
    let longer = names.push(last);
    if names.contains(name) {
        let at = choose|i: int| 0 <= i < names.len() && names[i] == name;
        assert(longer[at] == name);
    }
    if last == name {
        assert(longer[names.len() as int] == name);
    }
    if longer.contains(name) {
        let at = choose|i: int| 0 <= i < longer.len() && longer[i] == name;
        if at < names.len() {
            assert(names[at] == name);
        }
    }
}

/// The names without repetitions are distinct, and they are the names given:
/// none is lost and none is added.
pub proof fn lemma_first_occurrences(names: Seq<Seq<char>>)
    ensures
        first_occurrences(names).no_duplicates(),
        first_occurrences(names).len() <= names.len(),
        forall|name: Seq<char>| first_occurrences(names).contains(name) <==> names.contains(name),
    decreases names.len(),
{
    if names.len() > 0 {
        let earlier = names.drop_last();
        let kept = first_occurrences(earlier);
        lemma_first_occurrences(earlier);
        assert(names =~= earlier.push(names.last()));
        assert forall|name: Seq<char>| first_occurrences(names).contains(name) <==> names.contains(
            name,
        ) by {
            lemma_contains_push(earlier, names.last(), name);
            lemma_contains_push(kept, names.last(), name);
        };
    }
}

/// Names that are distinct as given make up the namespace as they stand.
pub proof fn lemma_first_occurrences_of_distinct(names: Seq<Seq<char>>)
    requires
        names.no_duplicates(),
    ensures
        first_occurrences(names) == names,
    decreases names.len(),
{
    if names.len() > 0 {
        let earlier = names.drop_last();
        lemma_first_occurrences_of_distinct(earlier);
        if earlier.contains(names.last()) {
            let at = choose|i: int| 0 <= i < earlier.len() && earlier[i] == names.last();
            assert(names[at] == names[names.len() - 1]);
        }
        assert(earlier.push(names.last()) =~= names);
    } else {
        assert(names =~= Seq::<Seq<char>>::empty());
    }
}

/// An import that the engine accepts, of a module that declares a number of
/// distinct template names, yields a namespace of exactly as many functions, one
/// for each name, and each of them declares on its own what a declaration
/// function of its name would.
pub proof fn lemma_import_yields_every_template(
    report: EngineError,
    template_names: Seq<Seq<char>>,
)
    requires
        !report.has_error,
        template_names.no_duplicates(),
    ensures
        import_result(report, template_names) == Ok::<Seq<Seq<char>>, ErrorModel>(template_names),
        forall|i: int, keywords: Seq<KeywordModel>|
            0 <= i < template_names.len() ==> #[trigger] template_call(
                import_result(report, template_names)->Ok_0[i],
                keywords,
            ) == assembled(template_names[i], keywords),
{
    lemma_first_occurrences_of_distinct(template_names);
}

} // verus!
