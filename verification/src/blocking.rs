//! The synchronous Demografix client.
//!
//! [`BlockingDemografix`] is generic over a [`BlockingTransport`], which
//! performs the HTTP call. Everything before the call (checking and building
//! the request) and after it (decoding the response) is the library's.

use vstd::prelude::*;
use crate::client::{
    agify_batch_from_response, agify_batch_outcome, agify_from_response, agify_outcome,
    genderize_batch_from_response, genderize_batch_outcome, genderize_from_response,
    genderize_outcome, nationalize_batch_from_response, nationalize_batch_outcome,
    nationalize_from_response, nationalize_outcome, prepare_request, prepared, view_names,
    view_opt_str, RawResponse, Request, RequestView, ResponseView, AGIFY_BASE, GENDERIZE_BASE,
    NATIONALIZE_BASE,
};
use crate::errors::{Error, ErrorView};
use crate::models::{
    view_result, AgifyPrediction, AgifyResult, Batch, GenderizePrediction, GenderizeResult,
    NationalizePrediction, NationalizeResult,
};

verus! {

/// The synchronous seam that performs HTTP.
pub trait BlockingTransport: Send + Sync {
    /// Execute the request and return the raw response, or a transport-level
    /// failure (network error, timeout).
    fn execute(&self, request: Request) -> Result<RawResponse, Error>;
}

/// The exchange behind an accepted call: the client handed the transport a
/// request whose value is `req`, the transport answered, and the result is
/// the transport's error unchanged or the decoding of its response by
/// `decode`.
pub open spec fn answered<T: BlockingTransport, V: View>(
    client: &BlockingDemografix<T>,
    req: RequestView,
    r: Result<V, Error>,
    decode: spec_fn(ResponseView) -> Result<V::V, ErrorView>,
) -> bool {
    exists|sent: Request, answer: Result<RawResponse, Error>|
        #![trigger call_ensures(T::execute, (client.transport(), sent), answer)]
        sent@ == req && call_ensures(T::execute, (client.transport(), sent), answer) && match answer {
            Err(e) => r == Err::<V, Error>(e),
            Ok(resp) => view_result(r) == decode(resp@),
        }
}

/// The synchronous Demografix client. It holds the transport and the API key;
/// it never holds or caches quota.
pub struct BlockingDemografix<T: BlockingTransport> {
    transport: T,
    api_key: Option<String>,
}

impl<T: BlockingTransport> BlockingDemografix<T> {
    /// The API key this client sends, by its characters.
    pub closed spec fn key(&self) -> Option<Seq<char>> {
        match self.api_key {
            Some(k) => Some(k@),
            None => None,
        }
    }

    /// The transport this client sends through.
    pub closed spec fn transport(&self) -> &T {
        &self.transport
    }

    /// Hand `request` to the transport and return what it answers.
    fn send(&self, request: Request) -> (r: Result<RawResponse, Error>)
        ensures
            call_ensures(T::execute, (self.transport(), request), r),
    {
        let execute = T::execute;
        execute(&self.transport, request)
    }

    /// Build a client over a transport. With `None`, requests carry no
    /// `apikey` parameter.
    pub fn with_transport(transport: T, api_key: Option<&str>) -> (r: Self)
        ensures
            *r.transport() == transport,
            r.key() == view_opt_str(api_key),
    {
        let api_key = match api_key {
            Some(k) => Some(String::from_str(k)),
            None => None,
        };
        BlockingDemografix { transport, api_key }
    }

    /// The API key this client sends.
    fn key_str(&self) -> (r: Option<&str>)
        ensures
            view_opt_str(r) == self.key(),
    {
        match &self.api_key {
            Some(k) => Some(k.as_str()),
            None => None,
        }
    }

    /// Predict gender for one name.
    ///
    /// The request is [`prepared`] from the arguments and the client's key. A
    /// rejected request is the result. An accepted one is handed to the
    /// transport as it was prepared, and the result is the transport's error
    /// or the decoding of its response by [`genderize_outcome`].
    pub fn genderize(&self, name: &str, country_id: Option<&str>) -> (r: Result<GenderizeResult, Error>)
        ensures
            match prepared(GENDERIZE_BASE@, seq![name@], view_opt_str(country_id), self.key()) {
                Err(e) => r matches Err(x) && x@ == e,
                Ok(req) => answered(self, req, r, |resp: ResponseView| genderize_outcome(resp)),
            },
    {
        let names = [name];
        assert(view_names(&names) =~= seq![name@]);
        let request = prepare_request(GENDERIZE_BASE, &names, country_id, self.key_str())?;
        let ghost sent = request;
        let answer = self.send(request);
        let ghost answer_value = answer;
        let r = match answer {
            Ok(response) => genderize_from_response(&response),
            Err(e) => Err(e),
        };
        assert(call_ensures(T::execute, (self.transport(), sent), answer_value));
        r
    }

    /// Predict gender for a list of names (maximum 10).
    ///
    /// The request is [`prepared`] from the arguments and the client's key. A
    /// rejected request is the result. An accepted one is handed to the
    /// transport as it was prepared, and the result is the transport's error
    /// or the decoding of its response by [`genderize_batch_outcome`].
    pub fn genderize_batch(&self, names: &[&str], country_id: Option<&str>) -> (r: Result<Batch<GenderizePrediction>, Error>)
        ensures
            match prepared(GENDERIZE_BASE@, view_names(names), view_opt_str(country_id), self.key()) {
                Err(e) => r matches Err(x) && x@ == e,
                Ok(req) => answered(self, req, r, |resp: ResponseView| genderize_batch_outcome(resp)),
            },
    {
        let request = prepare_request(GENDERIZE_BASE, names, country_id, self.key_str())?;
        let ghost sent = request;
        let answer = self.send(request);
        let ghost answer_value = answer;
        let r = match answer {
            Ok(response) => genderize_batch_from_response(&response),
            Err(e) => Err(e),
        };
        assert(call_ensures(T::execute, (self.transport(), sent), answer_value));
        r
    }

    /// Predict age for one name.
    ///
    /// The request is [`prepared`] from the arguments and the client's key. A
    /// rejected request is the result. An accepted one is handed to the
    /// transport as it was prepared, and the result is the transport's error
    /// or the decoding of its response by [`agify_outcome`].
    pub fn agify(&self, name: &str, country_id: Option<&str>) -> (r: Result<AgifyResult, Error>)
        ensures
            match prepared(AGIFY_BASE@, seq![name@], view_opt_str(country_id), self.key()) {
                Err(e) => r matches Err(x) && x@ == e,
                Ok(req) => answered(self, req, r, |resp: ResponseView| agify_outcome(resp)),
            },
    {
        let names = [name];
        assert(view_names(&names) =~= seq![name@]);
        let request = prepare_request(AGIFY_BASE, &names, country_id, self.key_str())?;
        let ghost sent = request;
        let answer = self.send(request);
        let ghost answer_value = answer;
        let r = match answer {
            Ok(response) => agify_from_response(&response),
            Err(e) => Err(e),
        };
        assert(call_ensures(T::execute, (self.transport(), sent), answer_value));
        r
    }

    /// Predict age for a list of names (maximum 10).
    ///
    /// The request is [`prepared`] from the arguments and the client's key. A
    /// rejected request is the result. An accepted one is handed to the
    /// transport as it was prepared, and the result is the transport's error
    /// or the decoding of its response by [`agify_batch_outcome`].
    pub fn agify_batch(&self, names: &[&str], country_id: Option<&str>) -> (r: Result<Batch<AgifyPrediction>, Error>)
        ensures
            match prepared(AGIFY_BASE@, view_names(names), view_opt_str(country_id), self.key()) {
                Err(e) => r matches Err(x) && x@ == e,
                Ok(req) => answered(self, req, r, |resp: ResponseView| agify_batch_outcome(resp)),
            },
    {
        let request = prepare_request(AGIFY_BASE, names, country_id, self.key_str())?;
        let ghost sent = request;
        let answer = self.send(request);
        let ghost answer_value = answer;
        let r = match answer {
            Ok(response) => agify_batch_from_response(&response),
            Err(e) => Err(e),
        };
        assert(call_ensures(T::execute, (self.transport(), sent), answer_value));
        r
    }

    /// Predict nationality for one name. Nationalize takes no `country_id`.
    ///
    /// The request is [`prepared`] from the arguments and the client's key. A
    /// rejected request is the result. An accepted one is handed to the
    /// transport as it was prepared, and the result is the transport's error
    /// or the decoding of its response by [`nationalize_outcome`].
    pub fn nationalize(&self, name: &str) -> (r: Result<NationalizeResult, Error>)
        ensures
            match prepared(NATIONALIZE_BASE@, seq![name@], None, self.key()) {
                Err(e) => r matches Err(x) && x@ == e,
                Ok(req) => answered(self, req, r, |resp: ResponseView| nationalize_outcome(resp)),
            },
    {
        let names = [name];
        assert(view_names(&names) =~= seq![name@]);
        let request = prepare_request(NATIONALIZE_BASE, &names, None, self.key_str())?;
        let ghost sent = request;
        let answer = self.send(request);
        let ghost answer_value = answer;
        let r = match answer {
            Ok(response) => nationalize_from_response(&response),
            Err(e) => Err(e),
        };
        assert(call_ensures(T::execute, (self.transport(), sent), answer_value));
        r
    }

    /// Predict nationality for a list of names (maximum 10).
    ///
    /// The request is [`prepared`] from the arguments and the client's key. A
    /// rejected request is the result. An accepted one is handed to the
    /// transport as it was prepared, and the result is the transport's error
    /// or the decoding of its response by [`nationalize_batch_outcome`].
    pub fn nationalize_batch(&self, names: &[&str]) -> (r: Result<Batch<NationalizePrediction>, Error>)
        ensures
            match prepared(NATIONALIZE_BASE@, view_names(names), None, self.key()) {
                Err(e) => r matches Err(x) && x@ == e,
                Ok(req) => answered(self, req, r, |resp: ResponseView| nationalize_batch_outcome(resp)),
            },
    {
        let request = prepare_request(NATIONALIZE_BASE, names, None, self.key_str())?;
        let ghost sent = request;
        let answer = self.send(request);
        let ghost answer_value = answer;
        let r = match answer {
            Ok(response) => nationalize_batch_from_response(&response),
            Err(e) => Err(e),
        };
        assert(call_ensures(T::execute, (self.transport(), sent), answer_value));
        r
    }
}

} // verus!
