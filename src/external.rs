//! Outside types that the library holds without looking inside.
use vstd::prelude::*;

verus! {

#[verifier::external_type_specification]
#[verifier::external_body]
#[verifier::reject_recursive_types(K)]
#[verifier::reject_recursive_types(V)]
#[verifier::reject_recursive_types(S)]
pub struct ExDashMap<K, V, S>(dashmap::DashMap<K, V, S>);

#[verifier::external_type_specification]
#[verifier::external_body]
#[verifier::reject_recursive_types(T)]
pub struct ExBroadcastSender<T>(tokio::sync::broadcast::Sender<T>);

#[verifier::external_type_specification]
#[verifier::external_body]
#[verifier::reject_recursive_types(T)]
pub struct ExBroadcastReceiver<T>(tokio::sync::broadcast::Receiver<T>);

#[verifier::external_type_specification]
#[verifier::external_body]
#[verifier::reject_recursive_types(T)]
pub struct ExUnboundedSender<T>(futures::channel::mpsc::UnboundedSender<T>);

#[verifier::external_type_specification]
#[verifier::external_body]
#[verifier::reject_recursive_types(T)]
pub struct ExUnboundedReceiver<T>(futures::channel::mpsc::UnboundedReceiver<T>);

#[verifier::external_type_specification]
#[verifier::external_body]
#[verifier::reject_recursive_types(T)]
pub struct ExStdSender<T>(std::sync::mpsc::Sender<T>);

#[verifier::external_type_specification]
#[verifier::external_body]
#[verifier::reject_recursive_types(T)]
pub struct ExStdReceiver<T>(std::sync::mpsc::Receiver<T>);

/// Relies on the `Clone` impl of dashmap::DashMap, which copies every
/// shard; nothing is claimed of the copy.
pub assume_specification<K, V, S>[ <dashmap::DashMap<K, V, S> as std::clone::Clone>::clone ](
    m: &dashmap::DashMap<K, V, S>,
) -> dashmap::DashMap<K, V, S>
    where
        K: std::cmp::Eq + std::hash::Hash + std::clone::Clone,
        S: std::clone::Clone,
        V: std::clone::Clone,
;

/// Relies on the `Clone` impl of tokio::sync::broadcast::Sender, a second
/// handle on the same channel; nothing is claimed of it.
pub assume_specification<T>[ <tokio::sync::broadcast::Sender<T> as std::clone::Clone>::clone ](
    s: &tokio::sync::broadcast::Sender<T>,
) -> tokio::sync::broadcast::Sender<T>;

} // verus!
