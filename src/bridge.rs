use vstd::prelude::*;

use crate::allow::AllowList;
use crate::headers::{
    fold_headers, folded, headers_transmittable, lemma_listed_transmittable, lists_map,
    map_transmittable, pairs_view,
};
use crate::message::{err, MessageView, OutgoingMessage, ProxyRequest};

verus! {

/// Decides how a proxy request starts. `Err` carries the one message that
/// reports why no upstream call is made; `Ok` carries the folded headers with
/// which the upstream call is made.
pub fn start_relay(allowed: &AllowList, request: &ProxyRequest) -> (r: Result<
    Vec<(String, String)>,
    OutgoingMessage,
>)
    ensures
        !allowed@.contains(request.destination@) ==> r is Err && r->Err_0@ == MessageView::Error(
            "unknown host"@,
        ),
        allowed@.contains(request.destination@) && !map_transmittable(
            folded(pairs_view(request.headers@)),
        ) ==> r is Err && r->Err_0@ == MessageView::Error("unknown headers"@),
        allowed@.contains(request.destination@) && map_transmittable(
            folded(pairs_view(request.headers@)),
        ) ==> r is Ok && lists_map(pairs_view(r->Ok_0@), folded(pairs_view(request.headers@))),
{
    if !allowed.is_permitted(request.destination.as_str()) {
        return Err(err("unknown host"));
    }
    let headers = fold_headers(&request.headers);
    proof {
        lemma_listed_transmittable(pairs_view(headers@), folded(pairs_view(request.headers@)));
    }
    if !headers_transmittable(&headers) {
        return Err(err("unknown headers"));
    }
    Ok(headers)
}

} // verus!
