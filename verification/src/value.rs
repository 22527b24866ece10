//! Scripting values as the bridge reads them, and their translation into nodes.

use vstd::prelude::*;
use crate::error::unhandled_attribute;
use crate::error::unhandled_element;
use crate::error::ErrorModel;
use crate::error::TranslationError;
use crate::node::boolean_node;
use crate::node::models;
use crate::node::string_list_node;
use crate::node::string_node;
use crate::node::NodeModel;
use crate::node::SyntheticNode;

verus! {

/// One element of a scripting list: a string, or anything else in its rendered form.
#[derive(Clone, Debug, PartialEq, Eq)]
pub enum ScriptElement {
    Str(String),
    Other { rendered: String },
}

/// One scripting value, as far as the bridge tells values apart: a boolean, a string,
/// a list, or anything else in its rendered form.
#[derive(Clone, Debug, PartialEq, Eq)]
pub enum ScriptValue {
    Boolean(bool),
    Str(String),
    List(Vec<ScriptElement>),
    Other { rendered: String },
}

/// An attribute value of a shape that has a statement form.
#[derive(Clone, Debug, PartialEq, Eq)]
pub enum AttributeValue {
    Boolean(bool),
    Str(String),
    StrList(Vec<String>),
}

/// The mathematical value of a [`ScriptElement`].
pub enum ElementModel {
    Str(Seq<char>),
    Other { rendered: Seq<char> },
}

/// The mathematical value of a [`ScriptValue`].
pub enum ValueModel {
    Boolean(bool),
    Str(Seq<char>),
    List(Seq<ElementModel>),
    Other { rendered: Seq<char> },
}

/// The mathematical value of an [`AttributeValue`].
pub enum AttributeValueModel {
    Boolean(bool),
    Str(Seq<char>),
    StrList(Seq<Seq<char>>),
}

impl View for ScriptElement {
    type V = ElementModel;

    open spec fn view(&self) -> ElementModel {
        match self {
            ScriptElement::Str(content) => ElementModel::Str(content@),
            ScriptElement::Other { rendered } => ElementModel::Other { rendered: rendered@ },
        }
    }
}

/// The values of `elements`, in order.
pub open spec fn element_models(elements: Seq<ScriptElement>) -> Seq<ElementModel> {
    elements.map_values(|element: ScriptElement| element@)
}

/// The contents of `strings`, in order.
pub open spec fn texts(strings: Seq<String>) -> Seq<Seq<char>> {
    strings.map_values(|content: String| content@)
}

impl View for ScriptValue {
    type V = ValueModel;

    open spec fn view(&self) -> ValueModel {
        match self {
            ScriptValue::Boolean(value) => ValueModel::Boolean(*value),
            ScriptValue::Str(content) => ValueModel::Str(content@),
            ScriptValue::List(elements) => ValueModel::List(element_models(elements@)),
            ScriptValue::Other { rendered } => ValueModel::Other { rendered: rendered@ },
        }
    }
}

impl View for AttributeValue {
    type V = AttributeValueModel;

    open spec fn view(&self) -> AttributeValueModel {
        match self {
            AttributeValue::Boolean(value) => AttributeValueModel::Boolean(*value),
            AttributeValue::Str(content) => AttributeValueModel::Str(content@),
            AttributeValue::StrList(items) => AttributeValueModel::StrList(texts(items@)),
        }
    }
}

/// The rendered form of the first element that is not a string, if there is one.
pub open spec fn first_foreign(elements: Seq<ElementModel>) -> Option<Seq<char>>
    decreases elements.len(),
{
    if elements.len() == 0 {
        None
    } else {
        match elements[0] {
            ElementModel::Other { rendered } => Some(rendered),
            ElementModel::Str(_) => first_foreign(elements.drop_first()),
        }
    }
}

/// The content of an element that is a string.
pub open spec fn element_text(element: ElementModel) -> Seq<char> {
    match element {
        ElementModel::Str(content) => content,
        ElementModel::Other { rendered } => rendered,
    }
}

/// The shape of `value`, or the failure that names what cannot be translated:
/// the value itself, or the first element of a list that is not a string.
pub open spec fn classification(value: ValueModel) -> Result<AttributeValueModel, ErrorModel> {
    match value {
        ValueModel::Boolean(flag) => Ok(AttributeValueModel::Boolean(flag)),
        ValueModel::Str(content) => Ok(AttributeValueModel::Str(content)),
        ValueModel::List(elements) => match first_foreign(elements) {
            Some(rendered) => Err(unhandled_element(rendered)),
            None => Ok(
                AttributeValueModel::StrList(
                    elements.map_values(|element: ElementModel| element_text(element)),
                ),
            ),
        },
        ValueModel::Other { rendered } => Err(unhandled_attribute(rendered)),
    }
}

/// The node that stands for an attribute value.
pub open spec fn value_node(value: AttributeValueModel) -> NodeModel {
    match value {
        AttributeValueModel::Boolean(flag) => boolean_node(flag),
        AttributeValueModel::Str(content) => string_node(content),
        AttributeValueModel::StrList(items) => string_list_node(items),
    }
}

/// The node that a scripting value translates to, or the failure.
pub open spec fn translation(value: ValueModel) -> Result<NodeModel, ErrorModel> {
    match classification(value) {
        Ok(shape) => Ok(value_node(shape)),
        Err(error) => Err(error),
    }
}

/// Elements that are strings do not change what `first_foreign` finds behind them.
proof fn lemma_first_foreign_skip(elements: Seq<ElementModel>, count: int)
    requires
        0 <= count <= elements.len(),
        forall|i: int| 0 <= i < count ==> elements[i] is Str,
    ensures
        first_foreign(elements) == first_foreign(elements.skip(count)),
    decreases count,
{
    if count == 0 {
        assert(elements.skip(0) =~= elements);
    } else {
        lemma_first_foreign_skip(elements, count - 1);
        let rest = elements.skip(count - 1);
        assert(rest[0] == elements[count - 1]);
        assert(rest.drop_first() =~= elements.skip(count));
    }
}

/// `first_foreign` finds nothing exactly in the lists whose elements are all strings.
pub proof fn lemma_first_foreign_none(elements: Seq<ElementModel>)
    ensures
        first_foreign(elements) is None <==> forall|i: int|
            0 <= i < elements.len() ==> elements[i] is Str,
    decreases elements.len(),
{
    if elements.len() > 0 {
        let rest = elements.drop_first();
        lemma_first_foreign_none(rest);
        if elements[0] is Str {
            assert forall|i: int| 0 <= i < rest.len() implies (rest[i] is Str) == (elements[i
                + 1] is Str) by {};
            if first_foreign(rest) is None {
                assert forall|i: int| 0 <= i < elements.len() implies elements[i] is Str by {
                    if i > 0 {
                        assert(rest[i - 1] is Str);
                    }
                };
            } else {
                let at = choose|i: int| 0 <= i < rest.len() && !(rest[i] is Str);
                assert(!(elements[at + 1] is Str));
            }
        }
    }
}

/// A list with an element that is not a string never translates: nothing is
/// coerced, whatever stands around the element.
pub proof fn lemma_foreign_element_fails(elements: Seq<ElementModel>, index: int)
    requires
        0 <= index < elements.len(),
        elements[index] is Other,
    ensures
        classification(ValueModel::List(elements)) is Err,
        translation(ValueModel::List(elements)) is Err,
{
    lemma_first_foreign_none(elements);
}

/// A list of strings translates to the list of their literals, in the same order.
pub proof fn lemma_string_list_translates(elements: Seq<ElementModel>)
    requires
        forall|i: int| 0 <= i < elements.len() ==> elements[i] is Str,
    ensures
        translation(ValueModel::List(elements)) matches Ok(NodeModel::List(children))
            && children.len() == elements.len() && forall|i: int|
            0 <= i < elements.len() ==> children[i] == string_node(element_text(elements[i])),
{
    lemma_first_foreign_none(elements);
}

impl AttributeValue {
    /// Tells the shape of a scripting value, or fails on the first thing in it that
    /// has no statement form. Nothing is coerced.
    pub fn classify(value: &ScriptValue) -> (outcome: Result<AttributeValue, TranslationError>)
        ensures
            match outcome {
                Ok(shape) => classification(value@) == Ok::<AttributeValueModel, ErrorModel>(shape@),
                Err(error) => classification(value@) == Err::<AttributeValueModel, ErrorModel>(error@),
            },
    {
        match value {
            ScriptValue::Boolean(flag) => Ok(AttributeValue::Boolean(*flag)),
            ScriptValue::Str(content) => Ok(AttributeValue::Str(content.clone())),
            ScriptValue::List(elements) => {
                let ghost all = element_models(elements@);
                let mut items: Vec<String> = Vec::new();
                let mut index: usize = 0;
                while index < elements.len()
                    invariant
                        index <= elements.len(),
                        all == element_models(elements@),
                        value@ == ValueModel::List(all),
                        items.len() == index,
                        forall|i: int| 0 <= i < index ==> all[i] is Str,
                        forall|i: int|
                            0 <= i < index ==> (#[trigger] items[i])@ == element_text(all[i]),
                    decreases elements.len() - index,
                {
                    match &elements[index] {
                        ScriptElement::Str(content) => {
                            items.push(content.clone());
                        },
                        ScriptElement::Other { rendered } => {
                            proof {
                                lemma_first_foreign_skip(all, index as int);
                                assert(all.skip(index as int)[0] == elements[index as int]@);
                            }
                            return Err(TranslationError::for_unhandled_element(rendered.as_str()));
                        },
                    }
                    index += 1;
                }
                proof {
                    lemma_first_foreign_skip(all, index as int);
                    assert(texts(items@) =~= all.map_values(
                        |element: ElementModel| element_text(element),
                    ));
                }
                Ok(AttributeValue::StrList(items))
            },
            ScriptValue::Other { rendered } => Err(
                TranslationError::for_unhandled_attribute(rendered.as_str()),
            ),
        }
    }

    /// Builds the node that stands for this value: a literal, or a list of string
    /// literals in the order of the items.
    pub fn to_node(&self) -> (node: SyntheticNode)
        ensures
            node@ == value_node(self@),
    {
        match self {
            AttributeValue::Boolean(flag) => SyntheticNode::boolean(*flag),
            AttributeValue::Str(content) => SyntheticNode::string_literal(content.as_str()),
            AttributeValue::StrList(items) => {
                let mut children: Vec<SyntheticNode> = Vec::new();
                let mut index: usize = 0;
                while index < items.len()
                    invariant
                        index <= items.len(),
                        children.len() == index,
                        forall|i: int|
                            0 <= i < index ==> (#[trigger] children[i])@ == string_node(items[i]@),
                    decreases items.len() - index,
                {
                    children.push(SyntheticNode::string_literal(items[index].as_str()));
                    index += 1;
                }
                assert(models(children@) =~= texts(items@).map_values(
                    |content: Seq<char>| string_node(content),
                ));
                SyntheticNode::list(children)
            },
        }
    }
}

/// Translates one scripting value into a node, or fails. Has no effect besides.
pub fn translate_value(value: &ScriptValue) -> (outcome: Result<SyntheticNode, TranslationError>)
    ensures
        match outcome {
            Ok(node) => translation(value@) == Ok::<NodeModel, ErrorModel>(node@),
            Err(error) => translation(value@) == Err::<NodeModel, ErrorModel>(error@),
        },
{
    match AttributeValue::classify(value) {
        Ok(shape) => Ok(shape.to_node()),
        Err(error) => Err(error),
    }
}

} // verus!
