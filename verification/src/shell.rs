//! The remote shell execution record, carried as a generic message.

use vstd::prelude::*;

use crate::json::lemma_entries_view;
use crate::json::lookup_entries;
use crate::json::JsonValue;
use crate::json::JsonView;
use crate::message::Message;
use crate::message::MessageView;
use crate::message::Payload;
use crate::message::Performative;

verus! {

/// A request to run one command in a remote shell and answer with its
/// output.
#[allow(non_snake_case)]
#[derive(Debug)]
pub struct ShellExecReq {
    pub msgID: String,
    pub perf: Performative,
    pub recipient: String,
    pub inReplyTo: Option<String>,
    pub sender: String,
    pub sentAt: i64,
    pub ans: bool,
    pub cmd: String,
}

/// The mathematical model of a shell execution request.
#[allow(non_snake_case)]
#[verifier::ext_equal]
pub struct ShellExecReqView {
    pub msgID: Seq<char>,
    pub perf: Performative,
    pub recipient: Seq<char>,
    pub inReplyTo: Option<Seq<char>>,
    pub sender: Seq<char>,
    pub sentAt: i64,
    pub ans: bool,
    pub cmd: Seq<char>,
}

impl View for ShellExecReq {
    type V = ShellExecReqView;

    open spec fn view(&self) -> ShellExecReqView {
        ShellExecReqView {
            msgID: self.msgID@,
            perf: self.perf,
            recipient: self.recipient@,
            inReplyTo: match self.inReplyTo {
                Some(s) => Some(s@),
                None => None,
            },
            sender: self.sender@,
            sentAt: self.sentAt,
            ans: self.ans,
            cmd: self.cmd@,
        }
    }
}

/// The shell-record keys are none of the fixed envelope keys, and
/// differ from each other.
proof fn lemma_shell_keys()
    ensures
        !crate::message::is_reserved_key("ans"@),
        !crate::message::is_reserved_key("cmd"@),
        "ans"@ != "cmd"@,
{
    reveal_strlit("ans");
    reveal_strlit("cmd");
    reveal_strlit("msgID");
    reveal_strlit("perf");
    reveal_strlit("recipient");
    reveal_strlit("inReplyTo");
    reveal_strlit("sender");
    reveal_strlit("sentAt");
    assert("ans"@.len() == 3);
    assert("cmd"@.len() == 3);
    assert("msgID"@.len() == 5);
    assert("perf"@.len() == 4);
    assert("recipient"@.len() == 9);
    assert("inReplyTo"@.len() == 9);
    assert("sender"@.len() == 6);
    assert("sentAt"@.len() == 6);
    assert("ans"@[0] == 'a' && "cmd"@[0] == 'c');
}

impl ShellExecReq {
    /// A fresh request to run the given command, asking for an answer.
    pub fn new(cmd: &str) -> (r: ShellExecReq)
        ensures
            r.msgID@.len() == 36,
            r.perf == Performative::REQUEST,
            r.recipient@ == Seq::<char>::empty(),
            r.inReplyTo is None,
            r.sender@ == Seq::<char>::empty(),
            r.sentAt == 0,
            r.ans == true,
            r.cmd@ == cmd@,
    {
        ShellExecReq {
            msgID: crate::message::fresh_uuid(),
            perf: Performative::REQUEST,
            recipient: String::new(),
            inReplyTo: None,
            sender: String::new(),
            sentAt: 0,
            ans: true,
            cmd: String::from_str(cmd),
        }
    }

    /// Wraps the request as the generic message the engine sends.
    pub fn to_msg(&self) -> (r: Message)
        ensures
            r@.clazz == "org.arl.fjage.shell.ShellExecReq"@,
            r@.data.msgID == self.msgID@,
            r@.data.perf == self.perf,
            r@.data.sentAt == Some(self.sentAt),
            lookup_entries(r@.data.fields, "ans"@) == Some(JsonView::Bool(self.ans)),
            lookup_entries(r@.data.fields, "cmd"@) == Some(JsonView::Str(self.cmd@)),
            r@.wf(),
    {
        let mut fields: Vec<(String, JsonValue)> = Vec::new();
        fields.push((String::from_str("ans"), JsonValue::Bool(self.ans)));
        fields.push((String::from_str("cmd"), JsonValue::Str(self.cmd.clone())));
        let msg = Message {
            clazz: String::from_str("org.arl.fjage.shell.ShellExecReq"),
            data: Payload {
                msgID: self.msgID.clone(),
                perf: self.perf,
                recipient: self.recipient.clone(),
                inReplyTo: match &self.inReplyTo {
                    Some(s) => Some(s.clone()),
                    None => None,
                },
                sender: self.sender.clone(),
                sentAt: Some(self.sentAt),
                fields,
            },
        };
        proof {
            lemma_shell_keys();
            lemma_entries_view(msg.data.fields@);
            crate::json::lemma_lookup_found(msg@.data.fields, "ans"@, 0);
            crate::json::lemma_lookup_found(msg@.data.fields, "cmd"@, 1);
        }
        msg
    }

    /// Reads a request back out of a generic message; a message of the
    /// wrong shape yields nothing.
    pub fn from_msg(msg: Message) -> (r: Option<ShellExecReq>)
        ensures
            match r {
                Some(p) => spec_shell_exec_req_parse(msg@) == Some(p@),
                None => spec_shell_exec_req_parse(msg@) is None,
            },
    {
        let sent_at = match msg.data.sentAt {
            Some(t) => t,
            None => {
                return None;
            },
        };
        let ans = match JsonValue::get_entry(&msg.data.fields, "ans") {
            Some(v) => match v.as_bool() {
                Some(b) => b,
                None => {
                    return None;
                },
            },
            None => {
                return None;
            },
        };
        let cmd = match JsonValue::get_entry(&msg.data.fields, "cmd") {
            Some(v) => match v.as_string() {
                Some(s) => s.clone(),
                None => {
                    return None;
                },
            },
            None => {
                return None;
            },
        };
        let p = ShellExecReq {
            msgID: msg.data.msgID.clone(),
            perf: msg.data.perf,
            recipient: msg.data.recipient.clone(),
            inReplyTo: match &msg.data.inReplyTo {
                Some(s) => Some(s.clone()),
                None => None,
            },
            sender: msg.data.sender.clone(),
            sentAt: sent_at,
            ans,
            cmd,
        };
        proof {
            assert(spec_shell_exec_req_parse(msg@)->0 =~= p@);
        }
        Some(p)
    }
}

/// The required answer flag a field stands for.
pub open spec fn spec_req_bool(o: Option<JsonView>) -> Option<bool> {
    match o {
        Some(JsonView::Bool(b)) => Some(b),
        _ => None,
    }
}

/// The shell execution request a generic message stands for: the
/// envelope carries over; `ans` must be a boolean, `cmd` text, and the
/// timestamp must be present.
pub open spec fn spec_shell_exec_req_parse(m: MessageView) -> Option<ShellExecReqView> {
    let fs = m.data.fields;
    let ans = spec_req_bool(lookup_entries(fs, "ans"@));
    let cmd = crate::message::req_str(lookup_entries(fs, "cmd"@));
    if m.data.sentAt is Some && ans is Some && cmd is Some {
        Some(
            ShellExecReqView {
                msgID: m.data.msgID,
                perf: m.data.perf,
                recipient: m.data.recipient,
                inReplyTo: m.data.inReplyTo,
                sender: m.data.sender,
                sentAt: m.data.sentAt->0,
                ans: ans->0,
                cmd: cmd->0,
            },
        )
    } else {
        None
    }
}

} // verus!
