mod protocol;
mod session;

pub use protocol::{
    Subprotocol, chosen_subprotocol, is_list_item, is_space, list_offers, select_subprotocol,
    trim_end, trim_start, trimmed,
};
pub use session::{
    ClientRequest, ClientSession, Publication, PublishPlan, PublishTargets, RequestMeaning,
    SERVER_NAME, ServerMessage, SessionView, TextAction, accepted_requests, after_subscribe,
    after_unsubscribe, confirms_all, greeting, has_target, is_target, layout_matches,
    lemma_subscribe_keeps_others, lemma_subscribe_then_target, lemma_unsubscribe_removes,
    names_subscription, lists_targets, lists_targets_before,
    plan_publication, request_meaning, subscribed_to,
};
