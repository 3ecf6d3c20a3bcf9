use vstd::prelude::*;

use crate::service_registry::current_timestamp;
use crate::service_registry::ServiceQuery;

verus! {

/// The uniform shape of every HTTP answer the adapter sends.
#[derive(Debug)]
pub struct ApiResponse<T> {
    pub success: bool,
    pub data: Option<T>,
    pub error: Option<String>,
    pub timestamp: u64,
}

impl<T> ApiResponse<T> {
    /// A successful answer carrying `data`, stamped with the clock's
    /// current reading.
    pub fn success(data: T) -> (r: Self)
        ensures
            r.success == true,
            r.data == Some(data),
            r.error is None,
    {
        ApiResponse { success: true, data: Some(data), error: None, timestamp: current_timestamp() }
    }

    /// A failed answer carrying `message`, stamped with the clock's
    /// current reading.
    pub fn error(message: String) -> (r: Self)
        ensures
            r.success == false,
            r.data is None,
            r.error == Some(message),
    {
        ApiResponse {
            success: false,
            data: None,
            error: Some(message),
            timestamp: current_timestamp(),
        }
    }
}

/// What a caller of the discovery endpoint sends.
#[derive(Debug)]
pub struct ServiceDiscoveryRequest {
    pub service_name: String,
    pub capabilities: Option<Vec<String>>,
    pub max_results: Option<usize>,
}

impl ServiceDiscoveryRequest {
    /// The query this request stands for: absent capabilities mean that
    /// none are required.
    pub fn to_query(self) -> (q: ServiceQuery)
        ensures
            q.service_name == self.service_name,
            q@.required_capabilities == (match self.capabilities {
                Some(c) => c.deep_view(),
                None => Seq::<Seq<char>>::empty(),
            }),
            q.max_results == self.max_results,
    {
        let required_capabilities = match self.capabilities {
            Some(c) => c,
            None => Vec::new(),
        };
        proof {
            if self.capabilities is None {
                assert(required_capabilities.deep_view() =~= Seq::<Seq<char>>::empty());
            }
        }
        ServiceQuery {
            service_name: self.service_name,
            required_capabilities,
            max_results: self.max_results,
        }
    }
}

} // verus!
