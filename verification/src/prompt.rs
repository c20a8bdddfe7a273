//! The prompt builder: from a message to the request sent to the classifier.

use vstd::prelude::*;
use vstd::string::StringExecFns;

verus! {

/// Who a part of a request speaks for.
#[derive(Clone, Copy, Debug, PartialEq, Eq, Structural)]
pub enum Role {
    User,
    Model,
}

/// One part of a request: a text and the role it is given under.
#[derive(Clone, Debug, PartialEq, Eq)]
pub struct ContentPart {
    pub role: Role,
    pub text: String,
}

/// The request sent to the classifier: its parts, in order.
#[derive(Clone, Debug, PartialEq, Eq)]
pub struct ClassificationRequest {
    pub parts: Vec<ContentPart>,
}

/// The mathematical model of a [`ContentPart`].
pub ghost struct ContentPartView {
    pub role: Role,
    pub text: Seq<char>,
}

impl View for ContentPart {
    type V = ContentPartView;

    open spec fn view(&self) -> ContentPartView {
        ContentPartView { role: self.role, text: self.text@ }
    }
}

impl View for ClassificationRequest {
    type V = Seq<ContentPartView>;

    open spec fn view(&self) -> Seq<ContentPartView> {
        self.parts@.map_values(|part: ContentPart| part@)
    }
}

/// The model that classifies.
pub const CLASSIFIER_MODEL: &'static str = "gemini-2.5-flash-preview-04-17";

/// The policy instruction that opens every request: what counts as spam, what
/// does not, and the form of the answer.
pub const POLICY_INSTRUCTION: &'static str =
    "You are an AI assistant responsible for determining whether a chat message is spam or part of illegal gray-market content.\nPlease follow these rules carefully:\n\n- Consider both the message content **and the sender's profile information** (including `first_name`, `last_name`, `username`).\n- Watch out for suspicious profile fields containing phrases like \"loan\", \"click here\", \"add me\", etc.\n- If the profile contains spam indicators but the text is benign, **still classify it as spam**.\n- Do **not** classify messages as spam **just because** they use memes, emojis, exaggerated tone, or mimic spam formatting.\n- A message **should be marked as spam only if it:\n\t- Attempts to redirect users to external websites;\n\t- Promotes illegal services or activities;\n\t- Tries to induce clicks, scan codes, or add unknown contacts.\n- If the message is simply humorous, uses trendy phrases, or follows meme formats **without harmful intent**, classify it as **not spam**.\n\nReturn only in JSON format:\n\n```json\n{ \"is_spam\": true/false }\"";

/// The request for a message: the policy instruction, then the message as it
/// was serialised, both under the user's role.
pub open spec fn classification_request(serialized: Seq<char>) -> Seq<ContentPartView> {
    seq![
        ContentPartView { role: Role::User, text: POLICY_INSTRUCTION@ },
        ContentPartView { role: Role::User, text: serialized },
    ]
}

/// Builds the request for a message from its serialised form.
pub fn build_request(serialized: &str) -> (request: ClassificationRequest)
    ensures
        request@ == classification_request(serialized@),
{
    let mut parts: Vec<ContentPart> = Vec::new();
    parts.push(ContentPart { role: Role::User, text: String::from_str(POLICY_INSTRUCTION) });
    parts.push(ContentPart { role: Role::User, text: String::from_str(serialized) });
    let request = ClassificationRequest { parts };
    assert(request@ =~= classification_request(serialized@));
    request
}

} // verus!
