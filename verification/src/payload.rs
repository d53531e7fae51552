use vstd::prelude::*;

use crate::member::{Member, MemberView};
use crate::wire::{
    encode_bytes_field, encode_string_field, encode_uint32_field, len_delimited_field,
    string_field, uint32_field,
};

verus! {

/// The flow setting sent with every account.
pub open spec fn flow_setting() -> Seq<char> {
    "xtls-rprx-vision"@
}

/// The encryption setting sent with every account.
pub open spec fn encryption_setting() -> Seq<char> {
    "none"@
}

/// The protobuf type name of the account message.
pub open spec fn account_message_type() -> Seq<char> {
    "xray.proxy.vless.Account"@
}

/// The protobuf type name of the add-user operation.
pub open spec fn add_op_message_type() -> Seq<char> {
    "xray.app.proxyman.command.AddUserOperation"@
}

/// The protobuf type name of the remove-user operation.
pub open spec fn remove_op_message_type() -> Seq<char> {
    "xray.app.proxyman.command.RemoveUserOperation"@
}

/// A string field, or nothing when the string is empty: the encoding
/// leaves default values out.
pub open spec fn opt_string_field(field: nat, s: Seq<char>) -> Seq<u8> {
    if s.len() == 0 {
        Seq::empty()
    } else {
        string_field(field, s)
    }
}

/// A bytes field, or nothing when the payload is empty.
pub open spec fn opt_bytes_field(field: nat, b: Seq<u8>) -> Seq<u8> {
    if b.len() == 0 {
        Seq::empty()
    } else {
        len_delimited_field(field, b)
    }
}

/// A uint32 field, or nothing when the value is zero.
pub open spec fn opt_uint32_field(field: nat, v: u32) -> Seq<u8> {
    if v == 0 {
        Seq::empty()
    } else {
        uint32_field(field, v as nat)
    }
}

/// The account message: identity, flow, encryption.
pub open spec fn vless_account_bytes(
    id: Seq<char>,
    flow: Seq<char>,
    encryption: Seq<char>,
) -> Seq<u8> {
    opt_string_field(1, id) + opt_string_field(2, flow) + opt_string_field(3, encryption)
}

/// A typed message: a type name and a serialized message.
pub open spec fn typed_message_bytes(message_type: Seq<char>, value: Seq<u8>) -> Seq<u8> {
    opt_string_field(1, message_type) + opt_bytes_field(2, value)
}

/// The user message: level, email, and the account typed message,
/// which is always present.
pub open spec fn user_bytes(level: u32, email: Seq<char>, account: Seq<u8>) -> Seq<u8> {
    opt_uint32_field(1, level) + opt_string_field(2, email) + len_delimited_field(3, account)
}

/// The add-user operation: the user message, always present.
pub open spec fn add_user_op_bytes(user: Seq<u8>) -> Seq<u8> {
    len_delimited_field(1, user)
}

/// The remove-user operation: the email identifying the user.
pub open spec fn remove_user_op_bytes(email: Seq<char>) -> Seq<u8> {
    opt_string_field(1, email)
}

/// The level a member is sent with: its tier, or zero when absent.
pub open spec fn level_of(m: MemberView) -> u32 {
    match m.tier {
        Option::Some(t) => t,
        Option::None => 0,
    }
}

/// The serialized account typed message for a member.
pub open spec fn member_account_tm_bytes(m: MemberView) -> Seq<u8> {
    typed_message_bytes(
        account_message_type(),
        vless_account_bytes(m.identity, flow_setting(), encryption_setting()),
    )
}

/// The serialized add-user operation for a member.
pub open spec fn member_add_op_bytes(m: MemberView) -> Seq<u8> {
    add_user_op_bytes(user_bytes(level_of(m), m.identity, member_account_tm_bytes(m)))
}

fn encode_opt_string(field: u32, value: &String, buf: &mut Vec<u8>)
    requires
        1 <= field <= 0x1FFF_FFFF,
    ensures
        final(buf)@ == old(buf)@ + opt_string_field(field as nat, value@),
{
    if !value.as_str().is_empty() {
        encode_string_field(field, value, buf);
    } else {
        proof {
            assert(old(buf)@ + opt_string_field(field as nat, value@) =~= old(buf)@);
        }
    }
}

fn encode_opt_bytes(field: u32, value: &Vec<u8>, buf: &mut Vec<u8>)
    requires
        1 <= field <= 0x1FFF_FFFF,
    ensures
        final(buf)@ == old(buf)@ + opt_bytes_field(field as nat, value@),
{
    if value.len() > 0 {
        encode_bytes_field(field, value, buf);
    } else {
        proof {
            assert(old(buf)@ + opt_bytes_field(field as nat, value@) =~= old(buf)@);
        }
    }
}

fn encode_opt_uint32(field: u32, value: u32, buf: &mut Vec<u8>)
    requires
        1 <= field <= 0x1FFF_FFFF,
    ensures
        final(buf)@ == old(buf)@ + opt_uint32_field(field as nat, value),
{
    if value > 0 {
        encode_uint32_field(field, value, buf);
    } else {
        proof {
            assert(old(buf)@ + opt_uint32_field(field as nat, value) =~= old(buf)@);
        }
    }
}

/// Serialize the account message.
fn encode_vless_account(id: &String, flow: &String, encryption: &String) -> (r: Vec<u8>)
    ensures
        r@ == vless_account_bytes(id@, flow@, encryption@),
{
    let mut buf: Vec<u8> = Vec::new();
    encode_opt_string(1, id, &mut buf);
    encode_opt_string(2, flow, &mut buf);
    encode_opt_string(3, encryption, &mut buf);
    proof {
        assert(buf@ =~= vless_account_bytes(id@, flow@, encryption@));
    }
    buf
}

/// Serialize a typed message.
fn encode_typed_message(message_type: &String, value: &Vec<u8>) -> (r: Vec<u8>)
    ensures
        r@ == typed_message_bytes(message_type@, value@),
{
    let mut buf: Vec<u8> = Vec::new();
    encode_opt_string(1, message_type, &mut buf);
    encode_opt_bytes(2, value, &mut buf);
    proof {
        assert(buf@ =~= typed_message_bytes(message_type@, value@));
    }
    buf
}

/// Serialize the user message.
fn encode_user(level: u32, email: &String, account_tm: &Vec<u8>) -> (r: Vec<u8>)
    ensures
        r@ == user_bytes(level, email@, account_tm@),
{
    let mut buf: Vec<u8> = Vec::new();
    encode_opt_uint32(1, level, &mut buf);
    encode_opt_string(2, email, &mut buf);
    encode_bytes_field(3, account_tm, &mut buf);
    proof {
        assert(buf@ =~= user_bytes(level, email@, account_tm@));
    }
    buf
}

/// One mutation request as handed to the transport layer: the listener
/// tag, the operation's protobuf type name, and the serialized
/// operation that a typed message carries.
pub struct MutationRequest {
    pub tag: String,
    pub op_type: String,
    pub op_value: Vec<u8>,
}

/// The flow setting as a string value.
pub fn flow_setting_string() -> (r: String)
    ensures
        r@ == flow_setting(),
{
    "xtls-rprx-vision".to_owned()
}

/// The encryption setting as a string value.
pub fn encryption_setting_string() -> (r: String)
    ensures
        r@ == encryption_setting(),
{
    "none".to_owned()
}

/// The account type name as a string value.
pub fn account_type_string() -> (r: String)
    ensures
        r@ == account_message_type(),
{
    "xray.proxy.vless.Account".to_owned()
}

/// The add-user operation type name as a string value.
pub fn add_op_type_string() -> (r: String)
    ensures
        r@ == add_op_message_type(),
{
    "xray.app.proxyman.command.AddUserOperation".to_owned()
}

/// The remove-user operation type name as a string value.
pub fn remove_op_type_string() -> (r: String)
    ensures
        r@ == remove_op_message_type(),
{
    "xray.app.proxyman.command.RemoveUserOperation".to_owned()
}

/// Build the add request for a member: an account under the member's
/// identity with the fixed flow and encryption settings, wrapped in a
/// user message at the member's level with the identity as email,
/// wrapped in the add-user operation.
pub fn build_add_request(m: &Member, tag: &String) -> (r: MutationRequest)
    ensures
        r.tag@ == tag@,
        r.op_type@ == add_op_message_type(),
        r.op_value@ == member_add_op_bytes(m@),
{
    let flow = flow_setting_string();
    let encryption = encryption_setting_string();
    let account = encode_vless_account(&m.identity, &flow, &encryption);
    let account_type = account_type_string();
    let account_tm = encode_typed_message(&account_type, &account);
    let user = encode_user(m.level(), &m.identity, &account_tm);
    let mut op_value: Vec<u8> = Vec::new();
    encode_bytes_field(1, &user, &mut op_value);
    proof {
        assert(op_value@ =~= member_add_op_bytes(m@));
    }
    MutationRequest { tag: tag.clone(), op_type: add_op_type_string(), op_value }
}

/// Build the remove request for an identity: the remove-user operation
/// keyed by the identity as email.
pub fn build_remove_request(identity: &String, tag: &String) -> (r: MutationRequest)
    ensures
        r.tag@ == tag@,
        r.op_type@ == remove_op_message_type(),
        r.op_value@ == remove_user_op_bytes(identity@),
{
    let mut op_value: Vec<u8> = Vec::new();
    encode_opt_string(1, identity, &mut op_value);
    proof {
        assert(op_value@ =~= remove_user_op_bytes(identity@));
    }
    MutationRequest { tag: tag.clone(), op_type: remove_op_type_string(), op_value }
}

} // verus!
