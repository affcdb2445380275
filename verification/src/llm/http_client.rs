//! The proxies that requests can go through.

use crate::llm::error::{LlmError, LlmErrorView};
use crate::text::same;
use vstd::prelude::*;

verus! {

/// How long a connection may take to come about, in seconds.
pub const CONNECT_TIMEOUT: u64 = 30;

/// How long a request may take, in seconds.
pub const REQUEST_TIMEOUT: u64 = 300;

/// The scheme that `reqwest` reads in an address, or what it says is wrong with
/// the address.
pub uninterp spec fn url_scheme_of(url: Seq<char>) -> Result<Seq<char>, Seq<char>>;

/// `reqwest::Url::parse`, then `scheme` of the address or the text of the
/// error: both depend on the text alone. How an address is read is left unsaid.
#[verifier::external_body]
fn read_scheme(url: &str) -> (r: Result<String, String>)
    ensures
        match r {
            Ok(s) => url_scheme_of(url@) == Ok::<Seq<char>, Seq<char>>(s@),
            Err(e) => url_scheme_of(url@) == Err::<Seq<char>, Seq<char>>(e@),
        },
{
    match reqwest::Url::parse(url) {
        Ok(u) => Ok(u.scheme().to_owned()),
        Err(e) => Err(e.to_string()),
    }
}

/// What is said of an address that is none.
pub open spec fn bad_address(url: Seq<char>, error: Seq<char>) -> LlmErrorView {
    LlmErrorView::Config("无效的代理地址 '"@ + url + "': "@ + error)
}

/// What is said of a scheme that cannot be used.
pub open spec fn bad_scheme(scheme: Seq<char>) -> LlmErrorView {
    LlmErrorView::Config("不支持的代理协议 '"@ + scheme + "': 仅支持 http://"@)
}

/// What is wrong with a proxy, by what was read of its address.
pub open spec fn proxy_problem(
    url: Seq<char>,
    scheme: Result<Seq<char>, Seq<char>>,
) -> Option<LlmErrorView> {
    match scheme {
        Err(e) => Some(bad_address(url, e)),
        Ok(s) => if s == "http"@ {
            None
        } else {
            Some(bad_scheme(s))
        },
    }
}

/// Whether a proxy can be used, by what was read of its address: only the
/// scheme `http` can be.
pub fn judge_proxy(url: &str, scheme: Result<String, String>) -> (r: Result<(), LlmError>)
    ensures
        match (
            match scheme {
                Ok(s) => proxy_problem(url@, Ok(s@)),
                Err(e) => proxy_problem(url@, Err(e@)),
            }
        ) {
            None => r is Ok,
            Some(e) => r is Err && r->Err_0.deep_view() == e,
        },
{
    match scheme {
        Err(e) => {
            let mut text = "无效的代理地址 '".to_owned();
            text.append(url);
            text.append("': ");
            text.append(e.as_str());
            Err(LlmError::Config(text))
        },
        Ok(s) => {
            if same(s.as_str(), "http") {
                Ok(())
            } else {
                let mut text = "不支持的代理协议 '".to_owned();
                text.append(s.as_str());
                text.append("': 仅支持 http://");
                Err(LlmError::Config(text))
            }
        },
    }
}

/// Whether a proxy can be used; none can always.
pub fn check_proxy(proxy_url: Option<&str>) -> (r: Result<(), LlmError>)
    ensures
        match proxy_url.deep_view() {
            None => r is Ok,
            Some(url) => match proxy_problem(url, url_scheme_of(url)) {
                None => r is Ok,
                Some(e) => r is Err && r->Err_0.deep_view() == e,
            },
        },
{
    match proxy_url {
        None => Ok(()),
        Some(url) => judge_proxy(url, read_scheme(url)),
    }
}

} // verus!
