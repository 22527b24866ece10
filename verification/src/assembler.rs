//! Assembly of one declaration call into the statement tree that the engine executes.

use vstd::prelude::*;
use crate::error::declaration_refused;
use crate::error::missing_name;
use crate::error::name_not_string;
use crate::error::EngineError;
use crate::error::ErrorModel;
use crate::error::TranslationError;
use crate::node::assignment_node;
use crate::node::block_node;
use crate::node::call_node;
use crate::node::models;
use crate::node::NodeModel;
use crate::node::SyntheticNode;
use crate::text::same_text;
use crate::value::classification;
use crate::value::lemma_foreign_element_fails;
use crate::value::value_node;
use crate::value::AttributeValue;
use crate::value::AttributeValueModel;
use crate::value::ScriptValue;
use crate::value::ValueModel;

verus! {

/// One keyword argument of a declaration call, as the script wrote it.
#[derive(Clone, Debug, PartialEq, Eq)]
pub struct Keyword {
    pub key: String,
    pub value: ScriptValue,
}

/// One attribute of a declaration: a key other than the reserved one, and a value
/// of a shape that has a statement form.
#[derive(Clone, Debug, PartialEq, Eq)]
pub struct Attribute {
    pub key: String,
    pub value: AttributeValue,
}

/// One declaration call after its keywords were scanned: the function, the
/// attributes in the order they were written, and the name where one was given.
#[derive(Clone, Debug, PartialEq, Eq)]
pub struct Declaration {
    pub function_name: String,
    pub attributes: Vec<Attribute>,
    pub name: Option<String>,
}

/// The mathematical value of a [`Keyword`].
pub struct KeywordModel {
    pub key: Seq<char>,
    pub value: ValueModel,
}

/// The mathematical value of an [`Attribute`].
pub struct AttributeModel {
    pub key: Seq<char>,
    pub value: AttributeValueModel,
}

/// The mathematical value of a [`Declaration`].
pub struct DeclarationModel {
    pub function_name: Seq<char>,
    pub attributes: Seq<AttributeModel>,
    pub name: Option<Seq<char>>,
}

impl View for Keyword {
    type V = KeywordModel;

    open spec fn view(&self) -> KeywordModel {
        KeywordModel { key: self.key@, value: self.value@ }
    }
}

impl View for Attribute {
    type V = AttributeModel;

    open spec fn view(&self) -> AttributeModel {
        AttributeModel { key: self.key@, value: self.value@ }
    }
}

/// The values of `keywords`, in order.
pub open spec fn keyword_models(keywords: Seq<Keyword>) -> Seq<KeywordModel> {
    keywords.map_values(|keyword: Keyword| keyword@)
}

/// The values of `attributes`, in order.
pub open spec fn attribute_models(attributes: Seq<Attribute>) -> Seq<AttributeModel> {
    attributes.map_values(|attribute: Attribute| attribute@)
}

impl View for Declaration {
    type V = DeclarationModel;

    open spec fn view(&self) -> DeclarationModel {
        DeclarationModel {
            function_name: self.function_name@,
            attributes: attribute_models(self.attributes@),
            name: match self.name {
                Some(name) => Some(name@),
                None => None,
            },
        }
    }
}

/// The key whose value is the declaration's positional argument and never an
/// assignment.
pub open spec fn is_reserved(key: Seq<char>) -> bool {
    key == "name"@
}

/// Why one keyword cannot be part of a declaration, if it cannot: the reserved key
/// needs a string, every other key a value that translates.
pub open spec fn keyword_failure(keyword: KeywordModel) -> Option<ErrorModel> {
    if is_reserved(keyword.key) {
        match keyword.value {
            ValueModel::Str(_) => None,
            _ => Some(name_not_string()),
        }
    } else {
        match classification(keyword.value) {
            Ok(_) => None,
            Err(error) => Some(error),
        }
    }
}

/// The failure of the first keyword, in the order written, that has one.
pub open spec fn first_failure(keywords: Seq<KeywordModel>) -> Option<ErrorModel>
    decreases keywords.len(),
{
    if keywords.len() == 0 {
        None
    } else {
        match first_failure(keywords.drop_last()) {
            Some(error) => Some(error),
            None => keyword_failure(keywords.last()),
        }
    }
}

/// The string given under the reserved key; the last one, should the key occur
/// more than once.
pub open spec fn captured_name(keywords: Seq<KeywordModel>) -> Option<Seq<char>>
    decreases keywords.len(),
{
    if keywords.len() == 0 {
        None
    } else {
        let last = keywords.last();
        if is_reserved(last.key) {
            match last.value {
                ValueModel::Str(content) => Some(content),
                _ => None,
            }
        } else {
            captured_name(keywords.drop_last())
        }
    }
}

/// The attribute that a keyword with another key than the reserved one stands for.
pub open spec fn attribute_of(keyword: KeywordModel) -> AttributeModel {
    AttributeModel {
        key: keyword.key,
        value: match classification(keyword.value) {
            Ok(shape) => shape,
            Err(_) => arbitrary(),
        },
    }
}

/// The test that tells the keywords that become attributes from those under the
/// reserved key.
pub open spec fn is_plain() -> spec_fn(KeywordModel) -> bool {
    |keyword: KeywordModel| !is_reserved(keyword.key)
}

/// The keywords of a set that become attributes, in the order written.
pub open spec fn plain_keywords(keywords: Seq<KeywordModel>) -> Seq<KeywordModel> {
    keywords.filter(is_plain())
}

/// The attributes of a keyword set: one for every keyword but those under the
/// reserved key, in the order written.
pub open spec fn plain_attributes(keywords: Seq<KeywordModel>) -> Seq<AttributeModel> {
    plain_keywords(keywords).map_values(|keyword: KeywordModel| attribute_of(keyword))
}

/// The number of keywords before `index` that become attributes: the place of the
/// statement for the keyword at `index` among the statements.
pub open spec fn attributes_before(keywords: Seq<KeywordModel>, index: int) -> int {
    plain_keywords(keywords.take(index)).len() as int
}

/// What scanning a keyword set gives: the first failure, or the declaration.
pub open spec fn scanned(function_name: Seq<char>, keywords: Seq<KeywordModel>) -> Result<
    DeclarationModel,
    ErrorModel,
> {
    match first_failure(keywords) {
        Some(error) => Err(error),
        None => Ok(
            DeclarationModel {
                function_name,
                attributes: plain_attributes(keywords),
                name: captured_name(keywords),
            },
        ),
    }
}

/// The statement `key = value` of one attribute.
pub open spec fn statement_of(attribute: AttributeModel) -> NodeModel {
    assignment_node(attribute.key, value_node(attribute.value))
}

/// One assignment statement per attribute, in order.
pub open spec fn statements_of(attributes: Seq<AttributeModel>) -> Seq<NodeModel> {
    attributes.map_values(|attribute: AttributeModel| statement_of(attribute))
}

/// The call that a declaration stands for: the function applied to the name, with
/// the assignments as its body. Without a name there is none.
pub open spec fn declaration_call(declaration: DeclarationModel) -> Result<NodeModel, ErrorModel> {
    match declaration.name {
        None => Err(missing_name()),
        Some(name) => Ok(
            call_node(
                declaration.function_name,
                name,
                Some(block_node(statements_of(declaration.attributes))),
            ),
        ),
    }
}

/// The tree for a call of `function_name` with `keywords`, or the first failure
/// met: those of the keywords in the order written, then the missing name.
pub open spec fn assembled(function_name: Seq<char>, keywords: Seq<KeywordModel>) -> Result<
    NodeModel,
    ErrorModel,
> {
    match scanned(function_name, keywords) {
        Err(error) => Err(error),
        Ok(declaration) => declaration_call(declaration),
    }
}

/// What the bridge makes of the engine's report on a declaration.
pub open spec fn declaration_result(function_name: Seq<char>, report: EngineError) -> Result<
    (),
    ErrorModel,
> {
    if report.has_error {
        Err(declaration_refused(function_name, report.message@))
    } else {
        Ok(())
    }
}

/// Tells whether `key` is the reserved key.
pub fn is_reserved_key(key: &str) -> (reserved: bool)
    ensures
        reserved == is_reserved(key@),
{
    same_text(key, "name")
}

impl Declaration {
    /// Scans the keywords of a call in the order written. The value under the
    /// reserved key is captured as the name and must be a string; every other
    /// keyword becomes an attribute. Stops at the first keyword that fails.
    pub fn scan(function_name: &str, keywords: &Vec<Keyword>) -> (outcome: Result<
        Declaration,
        TranslationError,
    >)
        ensures
            match outcome {
                Ok(declaration) => scanned(function_name@, keyword_models(keywords@)) == Ok::<
                    DeclarationModel,
                    ErrorModel,
                >(declaration@),
                Err(error) => scanned(function_name@, keyword_models(keywords@)) == Err::<
                    DeclarationModel,
                    ErrorModel,
                >(error@),
            },
    {
        let ghost all = keyword_models(keywords@);
        let mut name: Option<String> = None;
        let mut attributes: Vec<Attribute> = Vec::new();
        let mut index: usize = 0;
        while index < keywords.len()
            invariant
                index <= keywords.len(),
                all == keyword_models(keywords@),
                first_failure(all.take(index as int)) is None,
                captured_name(all.take(index as int)) == match name {
                    Some(content) => Some(content@),
                    None => None,
                },
                attribute_models(attributes@) == plain_attributes(all.take(index as int)),
            decreases keywords.len() - index,
        {
            let keyword = &keywords[index];
            let ghost before = all.take(index as int);
            let ghost upto = all.take(index + 1);
            proof {
                assert(upto.drop_last() =~= before);
                assert(upto =~= before.push(keyword@));
                lemma_plain_attributes_push(before, keyword@);
            }
            if is_reserved_key(keyword.key.as_str()) {
                match &keyword.value {
                    ScriptValue::Str(content) => {
                        name = Some(content.clone());
                    },
                    _ => {
                        proof {
                            lemma_first_failure_prefix(all, index + 1);
                        }
                        return Err(TranslationError::for_name_not_string());
                    },
                }
            } else {
                match AttributeValue::classify(&keyword.value) {
                    Ok(shape) => {
                        let ghost earlier = attribute_models(attributes@);
                        attributes.push(Attribute { key: keyword.key.clone(), value: shape });
                        assert(attribute_models(attributes@) =~= earlier.push(
                            attribute_of(keyword@),
                        ));
                    },
                    Err(error) => {
                        proof {
                            lemma_first_failure_prefix(all, index + 1);
                        }
                        return Err(error);
                    },
                }
            }
            index += 1;
        }
        assert(all.take(index as int) =~= all);
        Ok(Declaration { function_name: String::from_str(function_name), attributes, name })
    }

    /// Builds the call for this declaration: the function applied to the name as a
    /// string literal, with one assignment per attribute, in order, between braces.
    /// Fails where no name was captured.
    pub fn to_call(&self) -> (outcome: Result<SyntheticNode, TranslationError>)
        ensures
            match outcome {
                Ok(tree) => declaration_call(self@) == Ok::<NodeModel, ErrorModel>(tree@),
                Err(error) => declaration_call(self@) == Err::<NodeModel, ErrorModel>(error@),
            },
    {
        match &self.name {
            None => Err(TranslationError::for_missing_name()),
            Some(name) => {
                let mut statements: Vec<SyntheticNode> = Vec::new();
                let mut index: usize = 0;
                while index < self.attributes.len()
                    invariant
                        index <= self.attributes.len(),
                        statements.len() == index,
                        forall|i: int|
                            0 <= i < index ==> (#[trigger] statements[i])@ == statement_of(
                                self.attributes[i]@,
                            ),
                    decreases self.attributes.len() - index,
                {
                    let attribute = &self.attributes[index];
                    statements.push(
                        SyntheticNode::assignment(attribute.key.as_str(), attribute.value.to_node()),
                    );
                    index += 1;
                }
                assert(models(statements@) =~= statements_of(attribute_models(self.attributes@)));
                let block = SyntheticNode::block(statements);
                Ok(SyntheticNode::call(self.function_name.as_str(), name.as_str(), Some(block)))
            },
        }
    }
}

/// Finds the first keyword, in the order written, that cannot be part of a
/// declaration: the one at which assembly stops, and whose failure it reports.
pub fn first_failing_keyword(keywords: &Vec<Keyword>) -> (place: Option<usize>)
    ensures
        match place {
            Some(index) => index < keywords.len() && first_failure(keyword_models(keywords@))
                == keyword_failure(keywords[index as int]@) && keyword_failure(
                keywords[index as int]@,
            ) is Some && forall|i: int|
                0 <= i < index ==> keyword_failure(#[trigger] keywords[i]@) is None,
            None => first_failure(keyword_models(keywords@)) is None,
        },
{
    let ghost all = keyword_models(keywords@);
    let mut index: usize = 0;
    while index < keywords.len()
        invariant
            index <= keywords.len(),
            all == keyword_models(keywords@),
            forall|i: int| 0 <= i < index ==> keyword_failure(#[trigger] all[i]) is None,
        decreases keywords.len() - index,
    {
        let keyword = &keywords[index];
        let fails = if is_reserved_key(keyword.key.as_str()) {
            match &keyword.value {
                ScriptValue::Str(_) => false,
                _ => true,
            }
        } else {
            AttributeValue::classify(&keyword.value).is_err()
        };
        if fails {
            proof {
                assert(all[index as int] == keyword@);
                lemma_first_failure_at(all, index as int);
                assert forall|i: int| 0 <= i < index implies keyword_failure(
                    #[trigger] keywords[i]@,
                ) is None by {
                    assert(all[i] == keywords[i]@);
                };
            }
            return Some(index);
        }
        assert(all[index as int] == keyword@);
        index += 1;
    }
    proof {
        lemma_first_failure_none(all);
    }
    None
}

/// Assembles the call of `function_name` with `keywords` into the tree that the
/// engine executes, or fails at the first failure point.
pub fn assemble(function_name: &str, keywords: &Vec<Keyword>) -> (outcome: Result<
    SyntheticNode,
    TranslationError,
>)
    ensures
        match outcome {
            Ok(tree) => assembled(function_name@, keyword_models(keywords@)) == Ok::<
                NodeModel,
                ErrorModel,
            >(tree@),
            Err(error) => assembled(function_name@, keyword_models(keywords@)) == Err::<
                NodeModel,
                ErrorModel,
            >(error@),
        },
{
    match Declaration::scan(function_name, keywords) {
        Ok(declaration) => declaration.to_call(),
        Err(error) => Err(error),
    }
}

/// Reads the engine's report on a declaration: success, or the engine's message
/// with the function name in front of it.
pub fn declaration_outcome(function_name: &str, report: &EngineError) -> (outcome: Result<
    (),
    TranslationError,
>)
    ensures
        match outcome {
            Ok(_) => declaration_result(function_name@, *report) == Ok::<(), ErrorModel>(()),
            Err(error) => declaration_result(function_name@, *report) == Err::<(), ErrorModel>(
                error@,
            ),
        },
{
    if report.has_error {
        Err(TranslationError::for_declaration_refused(function_name, report.message.as_str()))
    } else {
        Ok(())
    }
}

/// A failure within a prefix of a keyword set is the failure of the whole set.
pub proof fn lemma_first_failure_prefix(keywords: Seq<KeywordModel>, length: int)
    requires
        0 <= length <= keywords.len(),
        first_failure(keywords.take(length)) is Some,
    ensures
        first_failure(keywords) == first_failure(keywords.take(length)),
    decreases keywords.len() - length,
{
    if length == keywords.len() {
        assert(keywords.take(length) =~= keywords);
    } else {
        let next = keywords.take(length + 1);
        assert(next.drop_last() =~= keywords.take(length));
        lemma_first_failure_prefix(keywords, length + 1);
    }
}

/// One more keyword adds its attribute at the end, unless its key is the reserved one.
pub proof fn lemma_plain_attributes_push(keywords: Seq<KeywordModel>, keyword: KeywordModel)
    ensures
        plain_attributes(keywords.push(keyword)) == if is_reserved(keyword.key) {
            plain_attributes(keywords)
        } else {
            plain_attributes(keywords).push(attribute_of(keyword))
        },
{
    keywords.lemma_filter_push(keyword, is_plain());
}

/// A keyword set has no failure exactly where none of its keywords has one.
pub proof fn lemma_first_failure_none(keywords: Seq<KeywordModel>)
    ensures
        first_failure(keywords) is None <==> forall|i: int|
            0 <= i < keywords.len() ==> keyword_failure(#[trigger] keywords[i]) is None,
    decreases keywords.len(),
{
    if keywords.len() > 0 {
        let earlier = keywords.drop_last();
        lemma_first_failure_none(earlier);
        if first_failure(earlier) is Some {
            let at = choose|i: int|
                0 <= i < earlier.len() && !(keyword_failure(#[trigger] earlier[i]) is None);
            assert(keywords[at] == earlier[at]);
        } else if keyword_failure(keywords.last()) is None {
            assert forall|i: int| 0 <= i < keywords.len() implies keyword_failure(
                #[trigger] keywords[i],
            ) is None by {
                if i < earlier.len() {
                    assert(keywords[i] == earlier[i]);
                }
            };
        }
    }
}

/// The failure of a keyword set is that of the first keyword, in the order
/// written, that has one.
pub proof fn lemma_first_failure_at(keywords: Seq<KeywordModel>, index: int)
    requires
        0 <= index < keywords.len(),
        keyword_failure(keywords[index]) is Some,
        forall|i: int| 0 <= i < index ==> keyword_failure(#[trigger] keywords[i]) is None,
    ensures
        first_failure(keywords) == keyword_failure(keywords[index]),
{
    let upto = keywords.take(index + 1);
    let before = keywords.take(index);
    assert(upto.drop_last() =~= before);
    assert forall|i: int| 0 <= i < before.len() implies keyword_failure(
        #[trigger] before[i],
    ) is None by {
        assert(before[i] == keywords[i]);
    };
    lemma_first_failure_none(before);
    lemma_first_failure_prefix(keywords, index + 1);
}

/// The name of a keyword set is what stands under the last occurrence of the
/// reserved key.
pub proof fn lemma_captured_name_at(keywords: Seq<KeywordModel>, index: int)
    requires
        0 <= index < keywords.len(),
        is_reserved(keywords[index].key),
        forall|i: int| index < i < keywords.len() ==> !is_reserved(#[trigger] keywords[i].key),
    ensures
        captured_name(keywords) == match keywords[index].value {
            ValueModel::Str(content) => Some(content),
            _ => None,
        },
    decreases keywords.len(),
{
    if index < keywords.len() - 1 {
        let earlier = keywords.drop_last();
        assert(!is_reserved(keywords[keywords.len() - 1].key));
        assert forall|i: int| index < i < earlier.len() implies !is_reserved(
            #[trigger] earlier[i].key,
        ) by {
            assert(earlier[i] == keywords[i]);
        };
        lemma_captured_name_at(earlier, index);
    }
}

/// A keyword set without the reserved key has no name.
pub proof fn lemma_captured_name_absent(keywords: Seq<KeywordModel>)
    requires
        forall|i: int| 0 <= i < keywords.len() ==> !is_reserved(#[trigger] keywords[i].key),
    ensures
        captured_name(keywords) is None,
    decreases keywords.len(),
{
    if keywords.len() > 0 {
        let earlier = keywords.drop_last();
        assert(!is_reserved(keywords[keywords.len() - 1].key));
        assert forall|i: int| 0 <= i < earlier.len() implies !is_reserved(
            #[trigger] earlier[i].key,
        ) by {
            assert(earlier[i] == keywords[i]);
        };
        lemma_captured_name_absent(earlier);
    }
}

/// The attribute of a keyword stands among the attributes at the place that the
/// count of the attributes before it gives, so the order written is kept.
pub proof fn lemma_attribute_position(keywords: Seq<KeywordModel>, index: int)
    requires
        0 <= index < keywords.len(),
        !is_reserved(keywords[index].key),
    ensures
        0 <= attributes_before(keywords, index) < plain_attributes(keywords).len(),
        plain_attributes(keywords)[attributes_before(keywords, index)] == attribute_of(
            keywords[index],
        ),
        forall|later: int|
            index < later <= keywords.len() ==> attributes_before(keywords, index)
                < #[trigger] attributes_before(keywords, later),
{
    let before = keywords.take(index);
    let upto = keywords.take(index + 1);
    let rest = keywords.skip(index + 1);
    assert(upto =~= before.push(keywords[index]));
    before.lemma_filter_push(keywords[index], is_plain());
    assert(keywords =~= upto + rest);
    Seq::filter_distributes_over_add(upto, rest, is_plain());
    assert forall|later: int| index < later <= keywords.len() implies attributes_before(
        keywords,
        index,
    ) < #[trigger] attributes_before(keywords, later) by {
        let wider = keywords.take(later);
        assert(wider.take(index + 1) =~= upto);
        wider.lemma_filter_take_len(is_plain(), index + 1);
    };
}

/// A call that names its target with a string, and gives under every other key a
/// boolean, a string or a list of strings, assembles into the call of the function
/// on that name, whose body holds exactly one assignment per key other than the
/// reserved one, in the order written.
pub proof fn lemma_named_declaration_assembles(
    function_name: Seq<char>,
    keywords: Seq<KeywordModel>,
)
    requires
        exists|i: int| 0 <= i < keywords.len() && is_reserved(#[trigger] keywords[i].key),
        forall|i: int|
            0 <= i < keywords.len() && is_reserved(#[trigger] keywords[i].key)
                ==> keywords[i].value is Str,
        forall|i: int|
            0 <= i < keywords.len() && !is_reserved(#[trigger] keywords[i].key) ==> classification(
                keywords[i].value,
            ) is Ok,
    ensures
        captured_name(keywords) is Some,
        exists|i: int|
            0 <= i < keywords.len() && is_reserved(#[trigger] keywords[i].key) && keywords[i].value
                == ValueModel::Str(captured_name(keywords)->Some_0),
        assembled(function_name, keywords) == Ok::<NodeModel, ErrorModel>(
            call_node(
                function_name,
                captured_name(keywords)->Some_0,
                Some(block_node(statements_of(plain_attributes(keywords)))),
            ),
        ),
        statements_of(plain_attributes(keywords)).len() == plain_keywords(keywords).len(),
        forall|i: int|
            0 <= i < keywords.len() && !is_reserved(#[trigger] keywords[i].key) ==> {
                &&& 0 <= attributes_before(keywords, i) < plain_keywords(keywords).len()
                &&& statements_of(plain_attributes(keywords))[attributes_before(keywords, i)]
                    == assignment_node(
                    keywords[i].key,
                    value_node(classification(keywords[i].value)->Ok_0),
                )
            },
        forall|i: int, j: int|
            0 <= i < j < keywords.len() && !is_reserved(#[trigger] keywords[i].key)
                && !is_reserved(#[trigger] keywords[j].key) ==> attributes_before(keywords, i)
                < attributes_before(keywords, j),
{
    lemma_first_failure_none(keywords);
    let last = lemma_last_reserved(keywords);
    lemma_captured_name_at(keywords, last);
    assert forall|i: int|
        0 <= i < keywords.len() && !is_reserved(#[trigger] keywords[i].key) implies {
        &&& 0 <= attributes_before(keywords, i) < plain_keywords(keywords).len()
        &&& statements_of(plain_attributes(keywords))[attributes_before(keywords, i)]
            == assignment_node(keywords[i].key, value_node(classification(keywords[i].value)->Ok_0))
    } by {
        lemma_attribute_position(keywords, i);
    };
    assert forall|i: int, j: int|
        0 <= i < j < keywords.len() && !is_reserved(#[trigger] keywords[i].key) && !is_reserved(
            #[trigger] keywords[j].key,
        ) implies attributes_before(keywords, i) < attributes_before(keywords, j) by {
        lemma_attribute_position(keywords, i);
    };
}

/// The place of the last occurrence of the reserved key, where it occurs.
proof fn lemma_last_reserved(keywords: Seq<KeywordModel>) -> (index: int)
    requires
        exists|i: int| 0 <= i < keywords.len() && is_reserved(#[trigger] keywords[i].key),
    ensures
        0 <= index < keywords.len(),
        is_reserved(keywords[index].key),
        forall|i: int| index < i < keywords.len() ==> !is_reserved(#[trigger] keywords[i].key),
    decreases keywords.len(),
{
    let end = keywords.len() - 1;
    if is_reserved(keywords[end].key) {
        end
    } else {
        let earlier = keywords.drop_last();
        let witness = choose|i: int|
            0 <= i < keywords.len() && is_reserved(#[trigger] keywords[i].key);
        assert(is_reserved(earlier[witness].key));
        let index = lemma_last_reserved(earlier);
        assert forall|i: int| index < i < keywords.len() implies !is_reserved(
            #[trigger] keywords[i].key,
        ) by {
            if i < end {
                assert(earlier[i] == keywords[i]);
            }
        };
        index
    }
}

/// A call without the reserved key never assembles, whatever else it holds; and
/// where every value it holds has a statement form, the failure is the missing
/// name.
pub proof fn lemma_unnamed_declaration_fails(function_name: Seq<char>, keywords: Seq<KeywordModel>)
    requires
        forall|i: int| 0 <= i < keywords.len() ==> !is_reserved(#[trigger] keywords[i].key),
    ensures
        assembled(function_name, keywords) is Err,
        (forall|i: int|
            0 <= i < keywords.len() ==> classification((#[trigger] keywords[i]).value) is Ok)
            ==> assembled(function_name, keywords) == Err::<NodeModel, ErrorModel>(missing_name()),
{
    lemma_captured_name_absent(keywords);
    lemma_first_failure_none(keywords);
}

/// A call that holds, under any key, a list with an element that is not a string
/// never assembles.
pub proof fn lemma_foreign_element_fails_assembly(
    function_name: Seq<char>,
    keywords: Seq<KeywordModel>,
    index: int,
    element: int,
)
    requires
        0 <= index < keywords.len(),
        keywords[index].value matches ValueModel::List(elements) && 0 <= element < elements.len()
            && elements[element] is Other,
    ensures
        assembled(function_name, keywords) is Err,
{
    lemma_foreign_element_fails(keywords[index].value->List_0, element);
    lemma_first_failure_none(keywords);
}

} // verus!
