//! GraphQL requests: which stored query they run, with which variables, and
//! where they are sent.

use vstd::prelude::*;

use crate::json::JsonValue;

verus! {

/// The stored GraphQL queries, each kept in a file named after it.
#[derive(Clone, Copy, Debug, PartialEq, Eq, Structural)]
pub enum GraphQLQuery {
    GetProjectId,
    GetProjectIdByOrganization,
    GetProjectIdByUser,
    GetTicketId,
    GetFieldId,
    UpdateSpentTime,
}

impl GraphQLQuery {
    /// The name of a query: its variant's name in snake case.
    pub open spec fn name(self) -> Seq<char> {
        match self {
            GraphQLQuery::GetProjectId => "get_project_id"@,
            GraphQLQuery::GetProjectIdByOrganization => "get_project_id_by_organization"@,
            GraphQLQuery::GetProjectIdByUser => "get_project_id_by_user"@,
            GraphQLQuery::GetTicketId => "get_ticket_id"@,
            GraphQLQuery::GetFieldId => "get_field_id"@,
            GraphQLQuery::UpdateSpentTime => "update_spent_time"@,
        }
    }

    /// The name of the query, which names the file that holds it.
    pub fn to_string(&self) -> (r: String)
        ensures
            r@ == self.name(),
    {
        match self {
            GraphQLQuery::GetProjectId => String::from_str("get_project_id"),
            GraphQLQuery::GetProjectIdByOrganization => String::from_str(
                "get_project_id_by_organization",
            ),
            GraphQLQuery::GetProjectIdByUser => String::from_str("get_project_id_by_user"),
            GraphQLQuery::GetTicketId => String::from_str("get_ticket_id"),
            GraphQLQuery::GetFieldId => String::from_str("get_field_id"),
            GraphQLQuery::UpdateSpentTime => String::from_str("update_spent_time"),
        }
    }
}

/// A request to run a stored query with the given variables.
pub struct GraphQLRequest {
    pub query: GraphQLQuery,
    pub variables: Vec<(String, JsonValue)>,
}

/// Where GraphQL requests go, and the headers sent with each of them.
pub struct GraphQLClient {
    pub endpoint: String,
    pub headers: Vec<(String, String)>,
}

/// Builds a [`GraphQLClient`].
pub struct GraphQLClientBuilder {
    pub endpoint: String,
    pub headers: Vec<(String, String)>,
    pub auth_token: Option<String>,
}

impl GraphQLClient {
    /// A builder with no endpoint, no headers and no token.
    pub fn builder() -> (r: GraphQLClientBuilder)
        ensures
            r.endpoint@ == Seq::<char>::empty(),
            r.headers@.len() == 0,
            r.auth_token is None,
    {
        GraphQLClientBuilder { endpoint: String::new(), headers: Vec::new(), auth_token: None }
    }
}

impl GraphQLClientBuilder {
    /// Sets the endpoint.
    pub fn endpoint(self, endpoint: &str) -> (r: Self)
        ensures
            r.endpoint@ == endpoint@,
            r.headers == self.headers,
            r.auth_token == self.auth_token,
    {
        GraphQLClientBuilder { endpoint: String::from_str(endpoint), ..self }
    }

    /// Sets the headers of the HTTP client that sends the requests.
    pub fn default_headers(self, headers: Vec<(String, String)>) -> (r: Self)
        ensures
            r.endpoint == self.endpoint,
            r.headers == headers,
            r.auth_token == self.auth_token,
    {
        GraphQLClientBuilder { headers, ..self }
    }

    /// Sets the token.
    pub fn auth_token(self, auth_token: &str) -> (r: Self)
        ensures
            r.endpoint == self.endpoint,
            r.headers == self.headers,
            r.auth_token matches Some(t) && t@ == auth_token@,
    {
        GraphQLClientBuilder { auth_token: Some(String::from_str(auth_token)), ..self }
    }

    /// The client: the endpoint and the headers; the token is not kept.
    pub fn build(self) -> (r: Result<GraphQLClient, &'static str>)
        ensures
            r matches Ok(c) && c.endpoint == self.endpoint && c.headers == self.headers,
    {
        Ok(GraphQLClient { endpoint: self.endpoint, headers: self.headers })
    }
}

} // verus!
