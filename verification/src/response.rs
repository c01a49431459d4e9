//! The result of a successful operation: outbound transfer instructions
//! for the host to execute, and observability attributes.

use vstd::prelude::*;

verus! {

/// An outbound instruction for one external asset contract, shaped after
/// the execute message the host would deliver to it.
#[derive(Debug, Clone, PartialEq)]
pub enum TransferInstruction {
    /// Move `amount` units held by this system to `recipient`.
    Cw20Transfer { contract_addr: String, recipient: String, amount: u128 },
    /// Pull `amount` units from `owner` to `recipient`.
    Cw20TransferFrom { contract_addr: String, owner: String, recipient: String, amount: u128 },
    /// Move the token `token_id` to `recipient`.
    Cw721TransferNft { contract_addr: String, recipient: String, token_id: String },
    /// Move `value` units of the token `token_id` from `from` to `to`.
    Cw1155SendFrom {
        contract_addr: String,
        from: String,
        to: String,
        token_id: String,
        value: u128,
    },
    /// Move every (token identity, amount) pair of `batch` from `from` to
    /// `to` in one call.
    Cw1155BatchSendFrom {
        contract_addr: String,
        from: String,
        to: String,
        batch: Vec<(String, u128)>,
    },
}

/// The mathematical value of a [`TransferInstruction`].
pub enum TransferInstructionV {
    Cw20Transfer { contract_addr: Seq<char>, recipient: Seq<char>, amount: u128 },
    Cw20TransferFrom {
        contract_addr: Seq<char>,
        owner: Seq<char>,
        recipient: Seq<char>,
        amount: u128,
    },
    Cw721TransferNft { contract_addr: Seq<char>, recipient: Seq<char>, token_id: Seq<char> },
    Cw1155SendFrom {
        contract_addr: Seq<char>,
        from: Seq<char>,
        to: Seq<char>,
        token_id: Seq<char>,
        value: u128,
    },
    Cw1155BatchSendFrom {
        contract_addr: Seq<char>,
        from: Seq<char>,
        to: Seq<char>,
        batch: Seq<(Seq<char>, u128)>,
    },
}

impl DeepView for TransferInstruction {
    type V = TransferInstructionV;

    open spec fn deep_view(&self) -> TransferInstructionV {
        match self {
            TransferInstruction::Cw20Transfer { contract_addr, recipient, amount } =>
                TransferInstructionV::Cw20Transfer {
                    contract_addr: contract_addr@,
                    recipient: recipient@,
                    amount: *amount,
                },
            TransferInstruction::Cw20TransferFrom { contract_addr, owner, recipient, amount } =>
                TransferInstructionV::Cw20TransferFrom {
                    contract_addr: contract_addr@,
                    owner: owner@,
                    recipient: recipient@,
                    amount: *amount,
                },
            TransferInstruction::Cw721TransferNft { contract_addr, recipient, token_id } =>
                TransferInstructionV::Cw721TransferNft {
                    contract_addr: contract_addr@,
                    recipient: recipient@,
                    token_id: token_id@,
                },
            TransferInstruction::Cw1155SendFrom { contract_addr, from, to, token_id, value } =>
                TransferInstructionV::Cw1155SendFrom {
                    contract_addr: contract_addr@,
                    from: from@,
                    to: to@,
                    token_id: token_id@,
                    value: *value,
                },
            TransferInstruction::Cw1155BatchSendFrom { contract_addr, from, to, batch } =>
                TransferInstructionV::Cw1155BatchSendFrom {
                    contract_addr: contract_addr@,
                    from: from@,
                    to: to@,
                    batch: batch.deep_view(),
                },
        }
    }
}

/// One observability attribute of a response.
#[derive(Debug, Clone, PartialEq)]
pub struct Attribute {
    pub key: String,
    pub value: String,
}

/// The mathematical value of an [`Attribute`].
pub struct AttributeV {
    pub key: Seq<char>,
    pub value: Seq<char>,
}

impl DeepView for Attribute {
    type V = AttributeV;

    open spec fn deep_view(&self) -> AttributeV {
        AttributeV { key: self.key@, value: self.value@ }
    }
}

/// What a successful operation hands back to the host: outbound
/// instructions to execute, and attributes to record.
#[derive(Debug, Clone, PartialEq)]
pub struct Response {
    pub messages: Vec<TransferInstruction>,
    pub attributes: Vec<Attribute>,
}

/// The mathematical value of a [`Response`].
pub struct ResponseV {
    pub messages: Seq<TransferInstructionV>,
    pub attributes: Seq<AttributeV>,
}

impl DeepView for Response {
    type V = ResponseV;

    open spec fn deep_view(&self) -> ResponseV {
        ResponseV { messages: self.messages.deep_view(), attributes: self.attributes.deep_view() }
    }
}

/// The mathematical value of an empty response.
pub open spec fn empty_response() -> ResponseV {
    ResponseV { messages: Seq::empty(), attributes: Seq::empty() }
}

impl Response {
    /// A response with no instructions and no attributes.
    pub fn new() -> (r: Response)
        ensures
            r.deep_view() == empty_response(),
    {
        let r = Response { messages: Vec::new(), attributes: Vec::new() };
        proof {
            assert(r.deep_view().messages =~= empty_response().messages);
            assert(r.deep_view().attributes =~= empty_response().attributes);
        }
        r
    }

    /// Appends one observability attribute.
    pub fn add_attribute(self, key: &str, value: String) -> (r: Response)
        ensures
            r.deep_view().messages == self.deep_view().messages,
            r.deep_view().attributes == self.deep_view().attributes.push(
                AttributeV { key: key@, value: value@ },
            ),
    {
        let mut r = self;
        let attr = Attribute { key: key.to_owned(), value };
        let ghost attr_v = attr.deep_view();
        r.attributes.push(attr);
        proof {
            assert(r.deep_view().attributes =~= self.deep_view().attributes.push(attr_v));
        }
        r
    }

    /// Appends one outbound instruction.
    pub fn add_message(self, msg: TransferInstruction) -> (r: Response)
        ensures
            r.deep_view().messages == self.deep_view().messages.push(msg.deep_view()),
            r.deep_view().attributes == self.deep_view().attributes,
    {
        let ghost msg_v = msg.deep_view();
        let mut r = self;
        r.messages.push(msg);
        proof {
            assert(r.deep_view().messages =~= self.deep_view().messages.push(msg_v));
        }
        r
    }

    /// Appends a batch of outbound instructions, in order.
    pub fn add_messages(self, msgs: Vec<TransferInstruction>) -> (r: Response)
        ensures
            r.deep_view().messages == self.deep_view().messages + msgs.deep_view(),
            r.deep_view().attributes == self.deep_view().attributes,
    {
        let mut r = self;
        let mut rest = msgs;
        r.messages.append(&mut rest);
        proof {
            assert(r.deep_view().messages =~= self.deep_view().messages + msgs.deep_view());
        }
        r
    }
}

impl Default for Response {
    /// A response with no instructions and no attributes.
    fn default() -> (r: Response)
        ensures
            r.deep_view() == empty_response(),
    {
        Response::new()
    }
}

} // verus!
