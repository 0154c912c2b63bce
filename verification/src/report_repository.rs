//! What is asked of the store for one account: the lookup of its namespaces
//! and the aggregation of the samples of one of them.

use vstd::prelude::*;
use crate::document::{Document, DocumentView, Value, ValueView};
use crate::error::ReportError;
use crate::namespace_model::{has_entry, is_first_entry, lookup_namespaces, Namespace};
use crate::pipeline::{report_pipeline, report_pipeline_spec, stages_view};
use crate::secret::Secret;
use crate::window::WindowUnit;

verus! {

/// Where a session is opened: the connection string and the database in it.
#[derive(Clone, Debug, PartialEq, Eq)]
pub struct DatabaseClient {
    pub uri: String,
    pub db_name: String,
}

impl DatabaseClient {
    /// The session that the credentials describe.
    pub fn init(secret: &Secret) -> (client: DatabaseClient)
        ensures
            client.uri@ == secret.uri_spec(),
            client.db_name@ == secret.db_name@,
    {
        DatabaseClient { uri: secret.connection_uri(), db_name: secret.db_name.clone() }
    }
}

/// A point lookup: the first document of `collection` that has the fields of `filter`.
#[derive(Debug, PartialEq, Eq)]
pub struct LookupRequest {
    pub collection: String,
    pub filter: Document,
}

/// A pipeline to run on `collection`. The grouping stages of a namespace with
/// many containers and windows can outgrow memory, so the store must be
/// allowed to spill to disk.
#[derive(Debug, PartialEq, Eq)]
pub struct PipelineRequest {
    pub collection: String,
    pub stages: Vec<Document>,
    pub allow_disk_spill: bool,
}

/// The collection that holds the namespace registry.
pub open spec fn registry_collection() -> Seq<char> {
    "namespaces"@
}

/// The filter that selects the registry entry of an account.
pub open spec fn account_filter(account: Seq<char>) -> DocumentView {
    Seq::empty().push(("account"@, ValueView::Text(account)))
}

/// The collection that holds the metric samples of an account.
pub open spec fn metrics_collection(account: Seq<char>) -> Seq<char> {
    account + "_metrics"@
}

/// The reports of the accounts of one session.
#[derive(Clone, Debug, PartialEq, Eq)]
pub struct ReportRepository {
    pub client: DatabaseClient,
}

impl ReportRepository {
    pub fn init(client: DatabaseClient) -> (repository: ReportRepository)
        ensures
            repository.client == client,
    {
        ReportRepository { client }
    }

    /// The lookup that fetches the registry entry of `account`.
    pub fn namespaces_request(&self, account: &str) -> (request: LookupRequest)
        ensures
            request.collection@ == registry_collection(),
            request.filter@ == account_filter(account@),
    {
        LookupRequest {
            collection: String::from_str("namespaces"),
            filter: Document::new().with("account", Value::text(account)),
        }
    }

    /// The namespaces of `account`, as the registry entries in `registry` list them.
    ///
    /// `registry` holds the entries that the store handed back. An account
    /// without an entry is `LookupNotFound`, never an empty list; of several
    /// entries for one account the first is taken.
    pub fn get_namespaces(&self, account: &str, registry: &Vec<Namespace>) -> (found: Result<
        Vec<String>,
        ReportError,
    >)
        ensures
            found is Ok <==> has_entry(registry@, account@),
            found matches Ok(names) ==> exists|i: int|
                is_first_entry(registry@, account@, i) && names@ == registry@[i].namespaces@,
            found matches Err(e) ==> e == ReportError::LookupNotFound,
    {
        lookup_namespaces(registry, account)
    }

    /// The aggregation to run for one namespace of `account`: the report
    /// pipeline over the account's samples, with windows of `aggregation_window`.
    ///
    /// A window that is no unit of truncation is refused here, before the store is asked.
    pub fn update_report(&self, account: &str, namespace: &str, aggregation_window: &str) -> (planned:
        Result<PipelineRequest, ReportError>)
        ensures
            planned is Ok <==> WindowUnit::is_supported(aggregation_window@),
            planned matches Ok(request) ==> {
                &&& request.collection@ == metrics_collection(account@)
                &&& stages_view(request.stages@) == report_pipeline_spec(
                    account@,
                    namespace@,
                    aggregation_window@,
                )
                &&& request.allow_disk_spill
            },
            planned matches Err(e) ==> e == ReportError::UnsupportedWindowUnit,
    {
        match WindowUnit::parse(aggregation_window) {
            Ok(unit) => {
                let mut collection = String::from_str(account);
                collection.append("_metrics");
                Ok(
                    PipelineRequest {
                        collection,
                        stages: report_pipeline(account, namespace, unit),
                        allow_disk_spill: true,
                    },
                )
            },
            Err(e) => Err(e),
        }
    }
}

} // verus!
