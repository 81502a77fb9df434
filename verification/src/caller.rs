use vstd::prelude::*;

use crate::api::{
    ApiRequest, ApiResponse, DeleteMsgParams, GetForwardMsgParams, GetForwardMsgResult,
    GetLoginInfoResult, GetMsgParams, GetMsgResult, RequestParams, ResponseBody,
    SendForwardMsgParams, SendGroupMsgParams, SendMsgResult, SendPrivateMsgParams, SendMsgParams,
    SetMsgEmojiLikeParams,
};
use crate::error::ConnectError;
use crate::json::JsonValue;

verus! {

/// A response whose payload decoded, but not to the shape the invoked
/// action expects. It carries the payload that actually arrived.
#[derive(Debug, PartialEq)]
pub enum ApiError {
    ResponseTypeError(ResponseBody),
}

/// Why a typed call failed: the transport refused or lost the call, or
/// the response had the wrong shape for the action.
#[derive(Debug, PartialEq)]
pub enum CallError {
    Connect(ConnectError),
    Api(ApiError),
}

/// The interface a handler uses to perform remote actions: one generic
/// `call`, which the transport implements; every typed action below is
/// built on it. No contract binds an implementation — what each typed
/// wrapper guarantees is exactly the unwrapping stated on the
/// `ResponseBody` conversions.
pub trait Caller {
    fn call(&mut self, request: ApiRequest) -> Result<ApiResponse, ConnectError>;
}

/// A full transport: something that can both run the connection's loops
/// and serve calls. The library's side of it is the `Caller` interface;
/// the loops themselves belong to whoever owns the socket.
pub trait Adapter: Caller {
}

impl ResponseBody {
    /// The login-info shape, or the whole payload back as the error.
    pub fn into_get_login_info(self) -> (r: Result<GetLoginInfoResult, ResponseBody>)
        ensures
            self matches ResponseBody::GetLoginInfo(g) ==> r == Ok::<
                GetLoginInfoResult,
                ResponseBody,
            >(g),
            !(self is GetLoginInfo) ==> r == Err::<GetLoginInfoResult, ResponseBody>(self),
    {
        match self {
            ResponseBody::GetLoginInfo(g) => Ok(g),
            other => Err(other),
        }
    }

    /// The send-message shape, or the whole payload back as the error.
    pub fn into_send_msg(self) -> (r: Result<SendMsgResult, ResponseBody>)
        ensures
            self matches ResponseBody::SendMsg(m) ==> r == Ok::<SendMsgResult, ResponseBody>(m),
            !(self is SendMsg) ==> r == Err::<SendMsgResult, ResponseBody>(self),
    {
        match self {
            ResponseBody::SendMsg(m) => Ok(m),
            other => Err(other),
        }
    }

    /// The fetched-message shape, or the whole payload back as the error.
    pub fn into_get_msg(self) -> (r: Result<GetMsgResult, ResponseBody>)
        ensures
            self matches ResponseBody::GetMsg(g) ==> r == Ok::<GetMsgResult, ResponseBody>(g),
            !(self is GetMsg) ==> r == Err::<GetMsgResult, ResponseBody>(self),
    {
        match self {
            ResponseBody::GetMsg(g) => Ok(g),
            other => Err(other),
        }
    }

    /// The forwarded-conversation shape, or the whole payload back.
    pub fn into_get_forward_msg(self) -> (r: Result<GetForwardMsgResult, ResponseBody>)
        ensures
            self matches ResponseBody::GetForwardMsg(g) ==> r == Ok::<
                GetForwardMsgResult,
                ResponseBody,
            >(g),
            !(self is GetForwardMsg) ==> r == Err::<GetForwardMsgResult, ResponseBody>(self),
    {
        match self {
            ResponseBody::GetForwardMsg(g) => Ok(g),
            other => Err(other),
        }
    }

    /// The untyped passthrough, or the whole payload back as the error.
    pub fn into_fallback(self) -> (r: Result<JsonValue, ResponseBody>)
        ensures
            self matches ResponseBody::Fallback(v) ==> r == Ok::<JsonValue, ResponseBody>(v),
            !(self is Fallback) ==> r == Err::<JsonValue, ResponseBody>(self),
    {
        match self {
            ResponseBody::Fallback(v) => Ok(v),
            other => Err(other),
        }
    }
}

/// Asks who the bot is logged in as.
pub fn get_login_info<C: Caller>(caller: &mut C) -> (r: Result<GetLoginInfoResult, CallError>)
    ensures
        r matches Err(CallError::Api(ApiError::ResponseTypeError(b))) ==> !(b is GetLoginInfo),
{
    let response = match caller.call(ApiRequest::new(RequestParams::GetLoginInfo)) {
        Ok(resp) => resp,
        Err(e) => {
            return Err(CallError::Connect(e));
        },
    };
    match response.data.into_get_login_info() {
        Ok(g) => Ok(g),
        Err(other) => Err(CallError::Api(ApiError::ResponseTypeError(other))),
    }
}

/// Sends a private message.
pub fn send_private_msg<C: Caller>(caller: &mut C, param: SendPrivateMsgParams) -> (r: Result<SendMsgResult, CallError>)
    ensures
        r matches Err(CallError::Api(ApiError::ResponseTypeError(b))) ==> !(b is SendMsg),
{
    let request = ApiRequest::new(RequestParams::SendPrivateMsg(param));
    let response = match caller.call(request) {
        Ok(resp) => resp,
        Err(e) => {
            return Err(CallError::Connect(e));
        },
    };
    match response.data.into_send_msg() {
        Ok(m) => Ok(m),
        Err(other) => Err(CallError::Api(ApiError::ResponseTypeError(other))),
    }
}

/// Sends a group message.
pub fn send_group_msg<C: Caller>(caller: &mut C, param: SendGroupMsgParams) -> (r: Result<SendMsgResult, CallError>)
    ensures
        r matches Err(CallError::Api(ApiError::ResponseTypeError(b))) ==> !(b is SendMsg),
{
    let request = ApiRequest::new(RequestParams::SendGroupMsg(param));
    let response = match caller.call(request) {
        Ok(resp) => resp,
        Err(e) => {
            return Err(CallError::Connect(e));
        },
    };
    match response.data.into_send_msg() {
        Ok(m) => Ok(m),
        Err(other) => Err(CallError::Api(ApiError::ResponseTypeError(other))),
    }
}

/// Sends a message to whichever id its parameters name.
pub fn send_msg<C: Caller>(caller: &mut C, param: SendMsgParams) -> (r: Result<SendMsgResult, CallError>)
    ensures
        r matches Err(CallError::Api(ApiError::ResponseTypeError(b))) ==> !(b is SendMsg),
{
    let request = ApiRequest::new(RequestParams::SendMsg(param));
    let response = match caller.call(request) {
        Ok(resp) => resp,
        Err(e) => {
            return Err(CallError::Connect(e));
        },
    };
    match response.data.into_send_msg() {
        Ok(m) => Ok(m),
        Err(other) => Err(CallError::Api(ApiError::ResponseTypeError(other))),
    }
}

/// Recalls a message.
pub fn delete_msg<C: Caller>(caller: &mut C, param: DeleteMsgParams) -> (r: Result<JsonValue, CallError>)
    ensures
        r matches Err(CallError::Api(ApiError::ResponseTypeError(b))) ==> !(b is Fallback),
{
    let request = ApiRequest::new(RequestParams::DeleteMsg(param));
    let response = match caller.call(request) {
        Ok(resp) => resp,
        Err(e) => {
            return Err(CallError::Connect(e));
        },
    };
    match response.data.into_fallback() {
        Ok(v) => Ok(v),
        Err(other) => Err(CallError::Api(ApiError::ResponseTypeError(other))),
    }
}

/// Fetches one message.
pub fn get_msg<C: Caller>(caller: &mut C, param: GetMsgParams) -> (r: Result<GetMsgResult, CallError>)
    ensures
        r matches Err(CallError::Api(ApiError::ResponseTypeError(b))) ==> !(b is GetMsg),
{
    let request = ApiRequest::new(RequestParams::GetMsg(param));
    let response = match caller.call(request) {
        Ok(resp) => resp,
        Err(e) => {
            return Err(CallError::Connect(e));
        },
    };
    match response.data.into_get_msg() {
        Ok(g) => Ok(g),
        Err(other) => Err(CallError::Api(ApiError::ResponseTypeError(other))),
    }
}

/// Fetches a forwarded conversation.
pub fn get_forward_msg<C: Caller>(caller: &mut C, param: GetForwardMsgParams) -> (r: Result<GetForwardMsgResult, CallError>)
    ensures
        r matches Err(CallError::Api(ApiError::ResponseTypeError(b))) ==> !(b is GetForwardMsg),
{
    let request = ApiRequest::new(RequestParams::GetForwardMsg(param));
    let response = match caller.call(request) {
        Ok(resp) => resp,
        Err(e) => {
            return Err(CallError::Connect(e));
        },
    };
    match response.data.into_get_forward_msg() {
        Ok(g) => Ok(g),
        Err(other) => Err(CallError::Api(ApiError::ResponseTypeError(other))),
    }
}

/// Reacts to a message with an emoji.
pub fn set_msg_emoji_like<C: Caller>(caller: &mut C, param: SetMsgEmojiLikeParams) -> (r: Result<JsonValue, CallError>)
    ensures
        r matches Err(CallError::Api(ApiError::ResponseTypeError(b))) ==> !(b is Fallback),
{
    let request = ApiRequest::new(RequestParams::SetMsgEmojiLike(param));
    let response = match caller.call(request) {
        Ok(resp) => resp,
        Err(e) => {
            return Err(CallError::Connect(e));
        },
    };
    match response.data.into_fallback() {
        Ok(v) => Ok(v),
        Err(other) => Err(CallError::Api(ApiError::ResponseTypeError(other))),
    }
}

/// Sends a forwarded conversation.
pub fn send_forward_msg<C: Caller>(caller: &mut C, param: SendForwardMsgParams) -> (r: Result<SendMsgResult, CallError>)
    ensures
        r matches Err(CallError::Api(ApiError::ResponseTypeError(b))) ==> !(b is SendMsg),
{
    let request = ApiRequest::new(RequestParams::SendForwardMsg(param));
    let response = match caller.call(request) {
        Ok(resp) => resp,
        Err(e) => {
            return Err(CallError::Connect(e));
        },
    };
    match response.data.into_send_msg() {
        Ok(m) => Ok(m),
        Err(other) => Err(CallError::Api(ApiError::ResponseTypeError(other))),
    }
}

} // verus!
