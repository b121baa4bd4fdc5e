//! Checked identifiers for the segments of a Sparkplug topic.
//!
//! Each type wraps a borrowed string that has been checked as one topic
//! segment. They exist to stop a positional swap: a group, an edge node and
//! a device are all `&str`, sit next to each other in a call, and mean
//! entirely different things. Passing the wrong one does not compile.
//!
//! The types borrow rather than own, so wrapping costs nothing. Build the
//! loop-invariant ones once and reuse them across a batch.

use crate::error::SparkplugError;
use crate::text;
use vstd::prelude::*;

verus! {

/// Whether a character may stand in a topic segment: it is neither the
/// separator nor a wildcard.
pub open spec fn is_plain(c: char) -> bool {
    c != '/' && c != '+' && c != '#'
}

/// Whether a text can stand as one topic segment: it is not empty, and it
/// holds no separator and no wildcard.
pub open spec fn is_usable(text: Seq<char>) -> bool {
    &&& text.len() > 0
    &&& forall|i: int| 0 <= i < text.len() ==> is_plain(#[trigger] text[i])
}

/// Why a text is refused as the identifier that `label` names.
pub open spec fn refusal(label: Seq<char>, value: Seq<char>) -> Seq<char> {
    label + " "@ + text::debug_quoted(value)
        + " must be non-empty and free of '/', '+' and '#'"@
}

/// Whether a string can stand as one topic segment.
///
/// [`crate::Namespace`] checks its own segment the same way.
pub fn is_usable_segment(value: &str) -> (usable: bool)
    ensures
        usable == is_usable(value@),
{
    let mut plain = true;
    for c in chars: value.chars()
        invariant
            chars.seq() == value@,
            plain == (forall|i: int| 0 <= i < chars.index() ==> is_plain(#[trigger] value@[i])),
    {
        if c == '/' || c == '+' || c == '#' {
            plain = false;
        }
    }
    !value.is_empty() && plain
}

/// Write why a text is refused as an identifier.
fn refusal_text(label: &str, value: &str) -> (reason: String)
    ensures
        reason@ == refusal(label@, value@),
{
    let mut reason = label.to_owned();
    reason.append(" ");
    reason.append(text::quote(value).as_str());
    reason.append(" must be non-empty and free of '/', '+' and '#'");
    reason
}

/// A named collection of edge nodes that share a bus.
///
/// Wraps a checked topic segment. Build one with `new`, which rejects an
/// empty string and any string containing `/`, `+` or `#`.
#[derive(Debug, Clone, Copy, PartialEq, Eq, Hash)]
pub struct GroupId<'a>(&'a str);

impl<'a> View for GroupId<'a> {
    type V = Seq<char>;

    closed spec fn view(&self) -> Seq<char> {
        self.0@
    }
}

impl<'a> GroupId<'a> {
    #[verifier::type_invariant]
    closed spec fn is_checked(self) -> bool {
        is_usable(self.0@)
    }

    /// Check `value` and wrap it as a group id.
    ///
    /// # Errors
    ///
    /// Returns [`SparkplugError::InvalidTopic`] when the string cannot stand
    /// as a topic segment. The message names which identifier failed.
    pub fn new(value: &'a str) -> (id: Result<Self, SparkplugError>)
        ensures
            match id {
                Ok(id) => is_usable(value@) && id@ == value@,
                Err(error) => {
                    &&& !is_usable(value@)
                    &&& error matches SparkplugError::InvalidTopic(reason)
                    &&& reason@ == refusal("group id"@, value@)
                },
            },
    {
        if is_usable_segment(value) {
            Ok(GroupId(value))
        } else {
            Err(SparkplugError::InvalidTopic(refusal_text("group id", value)))
        }
    }

    /// Wrap a segment that was checked already.
    pub(crate) fn wrap_checked(value: &'a str) -> (id: Self)
        requires
            is_usable(value@),
        ensures
            id@ == value@,
    {
        GroupId(value)
    }

    /// The identifier as it appears in a topic.
    #[must_use]
    pub fn as_str(&self) -> (text: &'a str)
        ensures
            text@ == self@,
            is_usable(text@),
    {
        proof {
            use_type_invariant(self);
        }
        self.0
    }

    /// The identifier as a borrowed string.
    #[must_use]
    pub fn as_ref(&self) -> (text: &str)
        ensures
            text@ == self@,
            is_usable(text@),
    {
        self.as_str()
    }

    /// The identifier as an owned string.
    #[must_use]
    pub fn to_string(&self) -> (text: String)
        ensures
            text@ == self@,
            is_usable(text@),
    {
        self.as_str().to_owned()
    }
}

impl<'a> TryFrom<&'a str> for GroupId<'a> {
    type Error = SparkplugError;

    fn try_from(value: &'a str) -> (id: Result<Self, SparkplugError>)
        ensures
            match id {
                Ok(id) => is_usable(value@) && id@ == value@,
                Err(error) => {
                    &&& !is_usable(value@)
                    &&& error matches SparkplugError::InvalidTopic(reason)
                    &&& reason@ == refusal("group id"@, value@)
                },
            },
    {
        GroupId::new(value)
    }
}

impl<'a> vstd::std_specs::convert::TryFromSpecImpl<&'a str> for GroupId<'a> {
    open spec fn obeys_try_from_spec() -> bool {
        false
    }

    open spec fn try_from_spec(value: &'a str) -> Result<Self, SparkplugError> {
        arbitrary()
    }
}

/// A Sparkplug entity that owns one MQTT session.
///
/// Wraps a checked topic segment. Build one with `new`, which rejects an
/// empty string and any string containing `/`, `+` or `#`.
#[derive(Debug, Clone, Copy, PartialEq, Eq, Hash)]
pub struct EdgeNodeId<'a>(&'a str);

impl<'a> View for EdgeNodeId<'a> {
    type V = Seq<char>;

    closed spec fn view(&self) -> Seq<char> {
        self.0@
    }
}

impl<'a> EdgeNodeId<'a> {
    #[verifier::type_invariant]
    closed spec fn is_checked(self) -> bool {
        is_usable(self.0@)
    }

    /// Check `value` and wrap it as an edge node id.
    ///
    /// # Errors
    ///
    /// Returns [`SparkplugError::InvalidTopic`] when the string cannot stand
    /// as a topic segment. The message names which identifier failed.
    pub fn new(value: &'a str) -> (id: Result<Self, SparkplugError>)
        ensures
            match id {
                Ok(id) => is_usable(value@) && id@ == value@,
                Err(error) => {
                    &&& !is_usable(value@)
                    &&& error matches SparkplugError::InvalidTopic(reason)
                    &&& reason@ == refusal("edge node id"@, value@)
                },
            },
    {
        if is_usable_segment(value) {
            Ok(EdgeNodeId(value))
        } else {
            Err(SparkplugError::InvalidTopic(refusal_text("edge node id", value)))
        }
    }

    /// Wrap a segment that was checked already.
    pub(crate) fn wrap_checked(value: &'a str) -> (id: Self)
        requires
            is_usable(value@),
        ensures
            id@ == value@,
    {
        EdgeNodeId(value)
    }

    /// The identifier as it appears in a topic.
    #[must_use]
    pub fn as_str(&self) -> (text: &'a str)
        ensures
            text@ == self@,
            is_usable(text@),
    {
        proof {
            use_type_invariant(self);
        }
        self.0
    }

    /// The identifier as a borrowed string.
    #[must_use]
    pub fn as_ref(&self) -> (text: &str)
        ensures
            text@ == self@,
            is_usable(text@),
    {
        self.as_str()
    }

    /// The identifier as an owned string.
    #[must_use]
    pub fn to_string(&self) -> (text: String)
        ensures
            text@ == self@,
            is_usable(text@),
    {
        self.as_str().to_owned()
    }
}

impl<'a> TryFrom<&'a str> for EdgeNodeId<'a> {
    type Error = SparkplugError;

    fn try_from(value: &'a str) -> (id: Result<Self, SparkplugError>)
        ensures
            match id {
                Ok(id) => is_usable(value@) && id@ == value@,
                Err(error) => {
                    &&& !is_usable(value@)
                    &&& error matches SparkplugError::InvalidTopic(reason)
                    &&& reason@ == refusal("edge node id"@, value@)
                },
            },
    {
        EdgeNodeId::new(value)
    }
}

impl<'a> vstd::std_specs::convert::TryFromSpecImpl<&'a str> for EdgeNodeId<'a> {
    open spec fn obeys_try_from_spec() -> bool {
        false
    }

    open spec fn try_from_spec(value: &'a str) -> Result<Self, SparkplugError> {
        arbitrary()
    }
}

/// An asset that reports metrics through an edge node.
///
/// Wraps a checked topic segment. Build one with `new`, which rejects an
/// empty string and any string containing `/`, `+` or `#`.
#[derive(Debug, Clone, Copy, PartialEq, Eq, Hash)]
pub struct DeviceId<'a>(&'a str);

impl<'a> View for DeviceId<'a> {
    type V = Seq<char>;

    closed spec fn view(&self) -> Seq<char> {
        self.0@
    }
}

impl<'a> DeviceId<'a> {
    #[verifier::type_invariant]
    closed spec fn is_checked(self) -> bool {
        is_usable(self.0@)
    }

    /// Check `value` and wrap it as a device id.
    ///
    /// # Errors
    ///
    /// Returns [`SparkplugError::InvalidTopic`] when the string cannot stand
    /// as a topic segment. The message names which identifier failed.
    pub fn new(value: &'a str) -> (id: Result<Self, SparkplugError>)
        ensures
            match id {
                Ok(id) => is_usable(value@) && id@ == value@,
                Err(error) => {
                    &&& !is_usable(value@)
                    &&& error matches SparkplugError::InvalidTopic(reason)
                    &&& reason@ == refusal("device id"@, value@)
                },
            },
    {
        if is_usable_segment(value) {
            Ok(DeviceId(value))
        } else {
            Err(SparkplugError::InvalidTopic(refusal_text("device id", value)))
        }
    }

    /// Wrap a segment that was checked already.
    pub(crate) fn wrap_checked(value: &'a str) -> (id: Self)
        requires
            is_usable(value@),
        ensures
            id@ == value@,
    {
        DeviceId(value)
    }

    /// The identifier as it appears in a topic.
    #[must_use]
    pub fn as_str(&self) -> (text: &'a str)
        ensures
            text@ == self@,
            is_usable(text@),
    {
        proof {
            use_type_invariant(self);
        }
        self.0
    }

    /// The identifier as a borrowed string.
    #[must_use]
    pub fn as_ref(&self) -> (text: &str)
        ensures
            text@ == self@,
            is_usable(text@),
    {
        self.as_str()
    }

    /// The identifier as an owned string.
    #[must_use]
    pub fn to_string(&self) -> (text: String)
        ensures
            text@ == self@,
            is_usable(text@),
    {
        self.as_str().to_owned()
    }
}

impl<'a> TryFrom<&'a str> for DeviceId<'a> {
    type Error = SparkplugError;

    fn try_from(value: &'a str) -> (id: Result<Self, SparkplugError>)
        ensures
            match id {
                Ok(id) => is_usable(value@) && id@ == value@,
                Err(error) => {
                    &&& !is_usable(value@)
                    &&& error matches SparkplugError::InvalidTopic(reason)
                    &&& reason@ == refusal("device id"@, value@)
                },
            },
    {
        DeviceId::new(value)
    }
}

impl<'a> vstd::std_specs::convert::TryFromSpecImpl<&'a str> for DeviceId<'a> {
    open spec fn obeys_try_from_spec() -> bool {
        false
    }

    open spec fn try_from_spec(value: &'a str) -> Result<Self, SparkplugError> {
        arbitrary()
    }
}

/// A host application, named by a STATE topic.
///
/// Wraps a checked topic segment. Build one with `new`, which rejects an
/// empty string and any string containing `/`, `+` or `#`.
#[derive(Debug, Clone, Copy, PartialEq, Eq, Hash)]
pub struct HostId<'a>(&'a str);

impl<'a> View for HostId<'a> {
    type V = Seq<char>;

    closed spec fn view(&self) -> Seq<char> {
        self.0@
    }
}

impl<'a> HostId<'a> {
    #[verifier::type_invariant]
    closed spec fn is_checked(self) -> bool {
        is_usable(self.0@)
    }

    /// Check `value` and wrap it as a host id.
    ///
    /// # Errors
    ///
    /// Returns [`SparkplugError::InvalidTopic`] when the string cannot stand
    /// as a topic segment. The message names which identifier failed.
    pub fn new(value: &'a str) -> (id: Result<Self, SparkplugError>)
        ensures
            match id {
                Ok(id) => is_usable(value@) && id@ == value@,
                Err(error) => {
                    &&& !is_usable(value@)
                    &&& error matches SparkplugError::InvalidTopic(reason)
                    &&& reason@ == refusal("host id"@, value@)
                },
            },
    {
        if is_usable_segment(value) {
            Ok(HostId(value))
        } else {
            Err(SparkplugError::InvalidTopic(refusal_text("host id", value)))
        }
    }

    /// Wrap a segment that was checked already.
    pub(crate) fn wrap_checked(value: &'a str) -> (id: Self)
        requires
            is_usable(value@),
        ensures
            id@ == value@,
    {
        HostId(value)
    }

    /// The identifier as it appears in a topic.
    #[must_use]
    pub fn as_str(&self) -> (text: &'a str)
        ensures
            text@ == self@,
            is_usable(text@),
    {
        proof {
            use_type_invariant(self);
        }
        self.0
    }

    /// The identifier as a borrowed string.
    #[must_use]
    pub fn as_ref(&self) -> (text: &str)
        ensures
            text@ == self@,
            is_usable(text@),
    {
        self.as_str()
    }

    /// The identifier as an owned string.
    #[must_use]
    pub fn to_string(&self) -> (text: String)
        ensures
            text@ == self@,
            is_usable(text@),
    {
        self.as_str().to_owned()
    }
}

impl<'a> TryFrom<&'a str> for HostId<'a> {
    type Error = SparkplugError;

    fn try_from(value: &'a str) -> (id: Result<Self, SparkplugError>)
        ensures
            match id {
                Ok(id) => is_usable(value@) && id@ == value@,
                Err(error) => {
                    &&& !is_usable(value@)
                    &&& error matches SparkplugError::InvalidTopic(reason)
                    &&& reason@ == refusal("host id"@, value@)
                },
            },
    {
        HostId::new(value)
    }
}

impl<'a> vstd::std_specs::convert::TryFromSpecImpl<&'a str> for HostId<'a> {
    open spec fn obeys_try_from_spec() -> bool {
        false
    }

    open spec fn try_from_spec(value: &'a str) -> Result<Self, SparkplugError> {
        arbitrary()
    }
}

/// The pair that names one Sparkplug edge node: a group and an edge node id.
///
/// Sparkplug names an edge node by both segments, so the same edge node id
/// in two groups names two edge nodes. The pair travels together to stop a
/// caller from taking one segment from one place and the other from another.
///
/// A client takes this at connect and keeps it. The client id names the MQTT
/// connection and has no part in it.
#[derive(Debug, Clone, Copy, PartialEq, Eq, Hash)]
pub struct EdgeNode<'a> {
    group: GroupId<'a>,
    edge_node_id: EdgeNodeId<'a>,
}

/// What names an edge node.
#[verifier::ext_equal]
pub struct EdgeNodeView {
    pub group: Seq<char>,
    pub edge_node_id: Seq<char>,
}

/// Whether both segments of a pair can stand in a topic.
pub open spec fn is_usable_pair(pair: EdgeNodeView) -> bool {
    is_usable(pair.group) && is_usable(pair.edge_node_id)
}

impl<'a> View for EdgeNode<'a> {
    type V = EdgeNodeView;

    closed spec fn view(&self) -> EdgeNodeView {
        EdgeNodeView { group: self.group@, edge_node_id: self.edge_node_id@ }
    }
}

impl<'a> EdgeNode<'a> {
    /// Name one edge node by its group and its edge node id.
    ///
    /// Both arguments are checked already, so this cannot fail.
    #[must_use]
    pub fn new(group: GroupId<'a>, edge_node_id: EdgeNodeId<'a>) -> (edge_node: Self)
        ensures
            edge_node@ == (EdgeNodeView { group: group@, edge_node_id: edge_node_id@ }),
    {
        EdgeNode { group, edge_node_id }
    }

    /// The group the edge node belongs to.
    #[must_use]
    pub fn group(&self) -> (group: GroupId<'a>)
        ensures
            group@ == self@.group,
    {
        self.group
    }

    /// The edge node id inside that group.
    #[must_use]
    pub fn edge_node_id(&self) -> (edge_node_id: EdgeNodeId<'a>)
        ensures
            edge_node_id@ == self@.edge_node_id,
    {
        self.edge_node_id
    }
}

/// The same checked pair, owned, for a holder that outlives the strings it
/// was built from.
///
/// [`EdgeNode`] borrows, so a client that keeps its identity for the length
/// of a session cannot store it. The fields are private and the only
/// constructor takes an [`EdgeNode`], so both segments inside always passed
/// their check.
#[derive(Debug, PartialEq, Eq, Hash)]
pub struct OwnedEdgeNode {
    group: String,
    edge_node_id: String,
}

impl Clone for OwnedEdgeNode {
    fn clone(&self) -> (copy: Self)
        ensures
            copy@ == self@,
    {
        proof {
            use_type_invariant(self);
        }
        OwnedEdgeNode { group: self.group.clone(), edge_node_id: self.edge_node_id.clone() }
    }
}

impl View for OwnedEdgeNode {
    type V = EdgeNodeView;

    closed spec fn view(&self) -> EdgeNodeView {
        EdgeNodeView { group: self.group@, edge_node_id: self.edge_node_id@ }
    }
}

impl OwnedEdgeNode {
    #[verifier::type_invariant]
    closed spec fn is_checked(self) -> bool {
        is_usable(self.group@) && is_usable(self.edge_node_id@)
    }

    /// Borrow the pair back. The segments passed their check when they
    /// entered, so nothing is checked a second time.
    #[must_use]
    pub fn borrowed(&self) -> (edge_node: EdgeNode<'_>)
        ensures
            edge_node@ == self@,
            is_usable_pair(self@),
    {
        proof {
            use_type_invariant(self);
        }
        EdgeNode::new(
            GroupId::wrap_checked(self.group.as_str()),
            EdgeNodeId::wrap_checked(self.edge_node_id.as_str()),
        )
    }
}

impl<'a> From<EdgeNode<'a>> for OwnedEdgeNode {
    fn from(edge_node: EdgeNode<'a>) -> (owned: Self)
        ensures
            owned@ == edge_node@,
            is_usable_pair(owned@),
    {
        OwnedEdgeNode {
            group: edge_node.group().to_string(),
            edge_node_id: edge_node.edge_node_id().to_string(),
        }
    }
}

impl<'a> vstd::std_specs::convert::FromSpecImpl<EdgeNode<'a>> for OwnedEdgeNode {
    open spec fn obeys_from_spec() -> bool {
        false
    }

    open spec fn from_spec(edge_node: EdgeNode<'a>) -> Self {
        arbitrary()
    }
}

impl<'a> From<&'a OwnedEdgeNode> for EdgeNode<'a> {
    fn from(owned: &'a OwnedEdgeNode) -> (edge_node: Self)
        ensures
            edge_node@ == owned@,
            is_usable_pair(owned@),
    {
        owned.borrowed()
    }
}

impl<'a> vstd::std_specs::convert::FromSpecImpl<&'a OwnedEdgeNode> for EdgeNode<'a> {
    open spec fn obeys_from_spec() -> bool {
        false
    }

    open spec fn from_spec(owned: &'a OwnedEdgeNode) -> Self {
        arbitrary()
    }
}

/// A text can stand as a segment unless it is empty or holds a separator or
/// a wildcard, wherever in the text that stands.
pub proof fn law_a_segment_is_refused_for_three_characters_only(text: Seq<char>)
    ensures
        is_usable(text) <==> text.len() > 0 && !text.contains('/') && !text.contains('+')
            && !text.contains('#'),
{
    if text.len() > 0 && !text.contains('/') && !text.contains('+') && !text.contains('#') {
        assert forall|i: int| 0 <= i < text.len() implies is_plain(#[trigger] text[i]) by {
            assert(text.contains(text[i]));
        }
    }
}

/// A refusal names the identifier, quotes the text, and says what a segment
/// must be.
pub proof fn law_a_refusal_names_the_identifier_and_the_text(label: Seq<char>, value: Seq<char>)
    ensures
        refusal(label, value) == label + " "@ + text::debug_quoted(value)
            + " must be non-empty and free of '/', '+' and '#'"@,
{
}

/// A pair names an edge node when both of its segments can stand in a topic.
pub proof fn law_a_pair_has_two_usable_segments(pair: EdgeNodeView)
    ensures
        is_usable_pair(pair) <==> is_usable(pair.group) && is_usable(pair.edge_node_id),
{
}

} // verus!
