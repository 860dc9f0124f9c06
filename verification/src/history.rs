//! The items of a conversation. What the library does not read of an item is kept in its `details`,
//! in the form in which it was written.

use crate::text::same_text;
use vstd::prelude::*;

verus! {

/// A part of a message.
#[derive(Debug, PartialEq, Eq)]
pub enum ContentItem {
    InputText { text: String },
    /// A part that is not an input text.
    Other { details: String },
}

/// What a part of a message stands for.
pub enum ContentModel {
    InputText { text: Seq<char> },
    Other { details: Seq<char> },
}

impl DeepView for ContentItem {
    type V = ContentModel;

    open spec fn deep_view(&self) -> ContentModel {
        match self {
            ContentItem::InputText { text } => ContentModel::InputText { text: text@ },
            ContentItem::Other { details } => ContentModel::Other { details: details@ },
        }
    }
}

impl Clone for ContentItem {
    fn clone(&self) -> (copy: Self)
        ensures
            copy.deep_view() == self.deep_view(),
    {
        match self {
            ContentItem::InputText { text } => ContentItem::InputText { text: text.clone() },
            ContentItem::Other { details } => ContentItem::Other { details: details.clone() },
        }
    }
}

/// A part of the output of a tool.
#[derive(Debug, PartialEq, Eq)]
pub enum FunctionCallOutputContentItem {
    InputText { text: String },
    InputImage { details: String },
    InputAudio { details: String },
    EncryptedContent { details: String },
}

/// What a part of an output stands for.
pub enum OutputPartModel {
    InputText { text: Seq<char> },
    InputImage { details: Seq<char> },
    InputAudio { details: Seq<char> },
    EncryptedContent { details: Seq<char> },
}

impl DeepView for FunctionCallOutputContentItem {
    type V = OutputPartModel;

    open spec fn deep_view(&self) -> OutputPartModel {
        match self {
            FunctionCallOutputContentItem::InputText { text } => OutputPartModel::InputText {
                text: text@,
            },
            FunctionCallOutputContentItem::InputImage { details } => OutputPartModel::InputImage {
                details: details@,
            },
            FunctionCallOutputContentItem::InputAudio { details } => OutputPartModel::InputAudio {
                details: details@,
            },
            FunctionCallOutputContentItem::EncryptedContent { details } =>
            OutputPartModel::EncryptedContent { details: details@ },
        }
    }
}

impl Clone for FunctionCallOutputContentItem {
    fn clone(&self) -> (copy: Self)
        ensures
            copy.deep_view() == self.deep_view(),
    {
        match self {
            FunctionCallOutputContentItem::InputText { text } => {
                FunctionCallOutputContentItem::InputText { text: text.clone() }
            },
            FunctionCallOutputContentItem::InputImage { details } => {
                FunctionCallOutputContentItem::InputImage { details: details.clone() }
            },
            FunctionCallOutputContentItem::InputAudio { details } => {
                FunctionCallOutputContentItem::InputAudio { details: details.clone() }
            },
            FunctionCallOutputContentItem::EncryptedContent { details } => {
                FunctionCallOutputContentItem::EncryptedContent { details: details.clone() }
            },
        }
    }
}

/// What a tool put out.
#[derive(Debug, PartialEq, Eq)]
pub enum FunctionCallOutputBody {
    Text(String),
    ContentItems(Vec<FunctionCallOutputContentItem>),
}

/// What an output stands for.
pub enum BodyModel {
    Text(Seq<char>),
    ContentItems(Seq<OutputPartModel>),
}

impl DeepView for FunctionCallOutputBody {
    type V = BodyModel;

    open spec fn deep_view(&self) -> BodyModel {
        match self {
            FunctionCallOutputBody::Text(text) => BodyModel::Text(text@),
            FunctionCallOutputBody::ContentItems(items) => BodyModel::ContentItems(
                items.deep_view(),
            ),
        }
    }
}

impl Clone for FunctionCallOutputBody {
    fn clone(&self) -> (copy: Self)
        ensures
            copy.deep_view() == self.deep_view(),
    {
        match self {
            FunctionCallOutputBody::Text(text) => FunctionCallOutputBody::Text(text.clone()),
            FunctionCallOutputBody::ContentItems(items) => {
                let copy = items.clone();
                proof {
                    assert(copy.deep_view() =~= items.deep_view());
                }
                FunctionCallOutputBody::ContentItems(copy)
            },
        }
    }
}

/// The output of a tool, and whether the tool succeeded.
#[derive(Debug, PartialEq, Eq)]
pub struct FunctionCallOutputPayload {
    pub body: FunctionCallOutputBody,
    pub success: Option<bool>,
}

/// What the output of a tool stands for.
pub struct PayloadModel {
    pub body: BodyModel,
    pub success: Option<bool>,
}

impl DeepView for FunctionCallOutputPayload {
    type V = PayloadModel;

    open spec fn deep_view(&self) -> PayloadModel {
        PayloadModel { body: self.body.deep_view(), success: self.success }
    }
}

impl Clone for FunctionCallOutputPayload {
    fn clone(&self) -> (copy: Self)
        ensures
            copy.deep_view() == self.deep_view(),
    {
        FunctionCallOutputPayload { body: self.body.clone(), success: self.success }
    }
}

impl FunctionCallOutputPayload {
    /// An output that is a text.
    pub fn from_text(text: String) -> (payload: Self)
        ensures
            payload.deep_view() == (PayloadModel { body: BodyModel::Text(text@), success: None }),
    {
        FunctionCallOutputPayload { body: FunctionCallOutputBody::Text(text), success: None }
    }
}

/// An item of a conversation.
#[allow(inconsistent_fields)]
#[derive(Debug, PartialEq, Eq)]
pub enum ResponseItem {
    Message { role: String, content: Vec<ContentItem>, details: String },
    FunctionCall { call_id: String, details: String },
    LocalShellCall { call_id: Option<String>, details: String },
    CustomToolCall { call_id: String, details: String },
    ToolSearchCall { call_id: Option<String>, details: String },
    FunctionCallOutput {
        call_id: Option<String>,
        output: FunctionCallOutputPayload,
        details: String,
    },
    CustomToolCallOutput { call_id: String, output: FunctionCallOutputPayload, details: String },
    ToolSearchOutput { call_id: Option<String>, details: String },
    Compaction { details: String },
    ContextCompaction { details: String },
    /// An item of another kind.
    Other { details: String },
}

/// What an item stands for.
pub enum ItemModel {
    Message { role: Seq<char>, content: Seq<ContentModel>, details: Seq<char> },
    FunctionCall { id: Seq<char>, details: Seq<char> },
    LocalShellCall { call_id: Option<Seq<char>>, details: Seq<char> },
    CustomToolCall { id: Seq<char>, details: Seq<char> },
    ToolSearchCall { call_id: Option<Seq<char>>, details: Seq<char> },
    FunctionCallOutput {
        call_id: Option<Seq<char>>,
        output: PayloadModel,
        details: Seq<char>,
    },
    CustomToolCallOutput { id: Seq<char>, output: PayloadModel, details: Seq<char> },
    ToolSearchOutput { call_id: Option<Seq<char>>, details: Seq<char> },
    Compaction { details: Seq<char> },
    ContextCompaction { details: Seq<char> },
    Other { details: Seq<char> },
}

impl DeepView for ResponseItem {
    type V = ItemModel;

    open spec fn deep_view(&self) -> ItemModel {
        match self {
            ResponseItem::Message { role, content, details } => ItemModel::Message {
                role: role@,
                content: content.deep_view(),
                details: details@,
            },
            ResponseItem::FunctionCall { call_id, details } => ItemModel::FunctionCall {
                id: call_id@,
                details: details@,
            },
            ResponseItem::LocalShellCall { call_id, details } => ItemModel::LocalShellCall {
                call_id: call_id.deep_view(),
                details: details@,
            },
            ResponseItem::CustomToolCall { call_id, details } => ItemModel::CustomToolCall {
                id: call_id@,
                details: details@,
            },
            ResponseItem::ToolSearchCall { call_id, details } => ItemModel::ToolSearchCall {
                call_id: call_id.deep_view(),
                details: details@,
            },
            ResponseItem::FunctionCallOutput { call_id, output, details } =>
            ItemModel::FunctionCallOutput {
                call_id: call_id.deep_view(),
                output: output.deep_view(),
                details: details@,
            },
            ResponseItem::CustomToolCallOutput { call_id, output, details } =>
            ItemModel::CustomToolCallOutput {
                id: call_id@,
                output: output.deep_view(),
                details: details@,
            },
            ResponseItem::ToolSearchOutput { call_id, details } => ItemModel::ToolSearchOutput {
                call_id: call_id.deep_view(),
                details: details@,
            },
            ResponseItem::Compaction { details } => ItemModel::Compaction { details: details@ },
            ResponseItem::ContextCompaction { details } => ItemModel::ContextCompaction {
                details: details@,
            },
            ResponseItem::Other { details } => ItemModel::Other { details: details@ },
        }
    }
}

impl Clone for ResponseItem {
    fn clone(&self) -> (copy: Self)
        ensures
            copy.deep_view() == self.deep_view(),
    {
        match self {
            ResponseItem::Message { role, content, details } => {
                let parts = content.clone();
                proof {
                    assert(parts.deep_view() =~= content.deep_view());
                }
                ResponseItem::Message {
                    role: role.clone(),
                    content: parts,
                    details: details.clone(),
                }
            },
            ResponseItem::FunctionCall { call_id, details } => ResponseItem::FunctionCall {
                call_id: call_id.clone(),
                details: details.clone(),
            },
            ResponseItem::LocalShellCall { call_id, details } => ResponseItem::LocalShellCall {
                call_id: call_id.clone(),
                details: details.clone(),
            },
            ResponseItem::CustomToolCall { call_id, details } => ResponseItem::CustomToolCall {
                call_id: call_id.clone(),
                details: details.clone(),
            },
            ResponseItem::ToolSearchCall { call_id, details } => ResponseItem::ToolSearchCall {
                call_id: call_id.clone(),
                details: details.clone(),
            },
            ResponseItem::FunctionCallOutput { call_id, output, details } => {
                ResponseItem::FunctionCallOutput {
                    call_id: call_id.clone(),
                    output: output.clone(),
                    details: details.clone(),
                }
            },
            ResponseItem::CustomToolCallOutput { call_id, output, details } => {
                ResponseItem::CustomToolCallOutput {
                    call_id: call_id.clone(),
                    output: output.clone(),
                    details: details.clone(),
                }
            },
            ResponseItem::ToolSearchOutput { call_id, details } => ResponseItem::ToolSearchOutput {
                call_id: call_id.clone(),
                details: details.clone(),
            },
            ResponseItem::Compaction { details } => ResponseItem::Compaction {
                details: details.clone(),
            },
            ResponseItem::ContextCompaction { details } => ResponseItem::ContextCompaction {
                details: details.clone(),
            },
            ResponseItem::Other { details } => ResponseItem::Other { details: details.clone() },
        }
    }
}

/// What the harness notes of an item.
#[derive(Debug, PartialEq, Eq)]
pub struct CodexHarnessMetadata {
    pub client_authored: bool,
    pub details: String,
}

/// What a note stands for.
pub struct MetadataModel {
    pub client_authored: bool,
    pub details: Seq<char>,
}

impl DeepView for CodexHarnessMetadata {
    type V = MetadataModel;

    open spec fn deep_view(&self) -> MetadataModel {
        MetadataModel { client_authored: self.client_authored, details: self.details@ }
    }
}

impl Clone for CodexHarnessMetadata {
    fn clone(&self) -> (copy: Self)
        ensures
            copy.deep_view() == self.deep_view(),
    {
        CodexHarnessMetadata {
            client_authored: self.client_authored,
            details: self.details.clone(),
        }
    }
}

/// An item, with what the harness notes of it.
#[derive(Debug, PartialEq, Eq)]
pub struct ResponseItemEnvelope {
    pub item: ResponseItem,
    pub metadata: Option<CodexHarnessMetadata>,
}

/// What an item with its note stands for.
pub struct EnvelopeModel {
    pub item: ItemModel,
    pub metadata: Option<MetadataModel>,
}

impl DeepView for ResponseItemEnvelope {
    type V = EnvelopeModel;

    open spec fn deep_view(&self) -> EnvelopeModel {
        EnvelopeModel { item: self.item.deep_view(), metadata: self.metadata.deep_view() }
    }
}

impl Clone for ResponseItemEnvelope {
    fn clone(&self) -> (copy: Self)
        ensures
            copy.deep_view() == self.deep_view(),
    {
        let metadata = match &self.metadata {
            Some(metadata) => Some(metadata.clone()),
            None => None,
        };
        ResponseItemEnvelope { item: self.item.clone(), metadata }
    }
}

impl ResponseItemEnvelope {
    /// An item of which nothing is noted.
    pub fn new(item: ResponseItem) -> (envelope: Self)
        ensures
            envelope.deep_view() == (EnvelopeModel { item: item.deep_view(), metadata: None }),
    {
        ResponseItemEnvelope { item, metadata: None }
    }
}

/// A copy of a list of items.
pub fn clone_envelopes(items: &Vec<ResponseItemEnvelope>) -> (copy: Vec<ResponseItemEnvelope>)
    ensures
        copy.deep_view() == items.deep_view(),
{
    let copy = items.clone();
    proof {
        assert(copy.deep_view() =~= items.deep_view());
    }
    copy
}

fn same_option(a: &Option<String>, b: &Option<String>) -> (same: bool)
    ensures
        same == (a.deep_view() == b.deep_view()),
{
    match (a, b) {
        (Some(a), Some(b)) => same_text(a.as_str(), b.as_str()),
        (None, None) => true,
        _ => false,
    }
}

fn same_part(a: &ContentItem, b: &ContentItem) -> (same: bool)
    ensures
        same == (a.deep_view() == b.deep_view()),
{
    match (a, b) {
        (ContentItem::InputText { text: a }, ContentItem::InputText { text: b }) => same_text(
            a.as_str(),
            b.as_str(),
        ),
        (ContentItem::Other { details: a }, ContentItem::Other { details: b }) => same_text(
            a.as_str(),
            b.as_str(),
        ),
        _ => false,
    }
}

fn same_content(a: &Vec<ContentItem>, b: &Vec<ContentItem>) -> (same: bool)
    ensures
        same == (a.deep_view() == b.deep_view()),
{
    if a.len() != b.len() {
        proof {
            assert(a.deep_view().len() != b.deep_view().len());
        }
        return false;
    }
    let mut i: usize = 0;
    while i < a.len()
        invariant
            i <= a@.len() == b@.len(),
            forall|j: int| 0 <= j < i ==> (#[trigger] a@[j]).deep_view() == b@[j].deep_view(),
        decreases a@.len() - i,
    {
        if !same_part(&a[i], &b[i]) {
            proof {
                assert(a.deep_view()[i as int] != b.deep_view()[i as int]);
            }
            return false;
        }
        i = i + 1;
    }
    proof {
        assert(a.deep_view() =~= b.deep_view());
    }
    true
}

fn same_output_part(a: &FunctionCallOutputContentItem, b: &FunctionCallOutputContentItem) -> (same:
    bool)
    ensures
        same == (a.deep_view() == b.deep_view()),
{
    match (a, b) {
        (
            FunctionCallOutputContentItem::InputText { text: a },
            FunctionCallOutputContentItem::InputText { text: b },
        ) => same_text(a.as_str(), b.as_str()),
        (
            FunctionCallOutputContentItem::InputImage { details: a },
            FunctionCallOutputContentItem::InputImage { details: b },
        ) => same_text(a.as_str(), b.as_str()),
        (
            FunctionCallOutputContentItem::InputAudio { details: a },
            FunctionCallOutputContentItem::InputAudio { details: b },
        ) => same_text(a.as_str(), b.as_str()),
        (
            FunctionCallOutputContentItem::EncryptedContent { details: a },
            FunctionCallOutputContentItem::EncryptedContent { details: b },
        ) => same_text(a.as_str(), b.as_str()),
        _ => false,
    }
}

fn same_output_parts(
    a: &Vec<FunctionCallOutputContentItem>,
    b: &Vec<FunctionCallOutputContentItem>,
) -> (same: bool)
    ensures
        same == (a.deep_view() == b.deep_view()),
{
    if a.len() != b.len() {
        proof {
            assert(a.deep_view().len() != b.deep_view().len());
        }
        return false;
    }
    let mut i: usize = 0;
    while i < a.len()
        invariant
            i <= a@.len() == b@.len(),
            forall|j: int| 0 <= j < i ==> (#[trigger] a@[j]).deep_view() == b@[j].deep_view(),
        decreases a@.len() - i,
    {
        if !same_output_part(&a[i], &b[i]) {
            proof {
                assert(a.deep_view()[i as int] != b.deep_view()[i as int]);
            }
            return false;
        }
        i = i + 1;
    }
    proof {
        assert(a.deep_view() =~= b.deep_view());
    }
    true
}

fn same_body(a: &FunctionCallOutputBody, b: &FunctionCallOutputBody) -> (same: bool)
    ensures
        same == (a.deep_view() == b.deep_view()),
{
    match (a, b) {
        (FunctionCallOutputBody::Text(a), FunctionCallOutputBody::Text(b)) => same_text(
            a.as_str(),
            b.as_str(),
        ),
        (FunctionCallOutputBody::ContentItems(a), FunctionCallOutputBody::ContentItems(b)) => {
            same_output_parts(a, b)
        },
        _ => false,
    }
}

fn same_payload(a: &FunctionCallOutputPayload, b: &FunctionCallOutputPayload) -> (same: bool)
    ensures
        same == (a.deep_view() == b.deep_view()),
{
    let same_success = match (a.success, b.success) {
        (Some(a), Some(b)) => a == b,
        (None, None) => true,
        _ => false,
    };
    same_success && same_body(&a.body, &b.body)
}

/// Whether two items are the same.
pub fn same_item(a: &ResponseItem, b: &ResponseItem) -> (same: bool)
    ensures
        same == (a.deep_view() == b.deep_view()),
{
    match (a, b) {
        (
            ResponseItem::Message { role: role_a, content: content_a, details: details_a },
            ResponseItem::Message { role: role_b, content: content_b, details: details_b },
        ) => *role_a == *role_b && *details_a == *details_b && same_content(content_a, content_b),
        (
            ResponseItem::FunctionCall { call_id: id_a, details: details_a },
            ResponseItem::FunctionCall { call_id: id_b, details: details_b },
        ) => *id_a == *id_b && *details_a == *details_b,
        (
            ResponseItem::LocalShellCall { call_id: id_a, details: details_a },
            ResponseItem::LocalShellCall { call_id: id_b, details: details_b },
        ) => same_option(id_a, id_b) && *details_a == *details_b,
        (
            ResponseItem::CustomToolCall { call_id: id_a, details: details_a },
            ResponseItem::CustomToolCall { call_id: id_b, details: details_b },
        ) => *id_a == *id_b && *details_a == *details_b,
        (
            ResponseItem::ToolSearchCall { call_id: id_a, details: details_a },
            ResponseItem::ToolSearchCall { call_id: id_b, details: details_b },
        ) => same_option(id_a, id_b) && *details_a == *details_b,
        (
            ResponseItem::FunctionCallOutput { call_id: id_a, output: out_a, details: details_a },
            ResponseItem::FunctionCallOutput { call_id: id_b, output: out_b, details: details_b },
        ) => same_option(id_a, id_b) && *details_a == *details_b && same_payload(out_a, out_b),
        (
            ResponseItem::CustomToolCallOutput { call_id: id_a, output: out_a, details: details_a },
            ResponseItem::CustomToolCallOutput { call_id: id_b, output: out_b, details: details_b },
        ) => *id_a == *id_b && *details_a == *details_b && same_payload(out_a, out_b),
        (
            ResponseItem::ToolSearchOutput { call_id: id_a, details: details_a },
            ResponseItem::ToolSearchOutput { call_id: id_b, details: details_b },
        ) => same_option(id_a, id_b) && *details_a == *details_b,
        (
            ResponseItem::Compaction { details: a },
            ResponseItem::Compaction { details: b },
        ) => *a == *b,
        (
            ResponseItem::ContextCompaction { details: a },
            ResponseItem::ContextCompaction { details: b },
        ) => *a == *b,
        (ResponseItem::Other { details: a }, ResponseItem::Other { details: b }) => *a == *b,
        _ => false,
    }
}

} // verus!
