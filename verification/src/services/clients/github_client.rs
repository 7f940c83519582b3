//! A client of GitHub projects (v2) that records spent time in a project
//! field: the requests it sends, what it reads from the answers, and the
//! order in which it does so.

use vstd::prelude::*;

use crate::config::GITHUB_PROJECT_API_URL;
use crate::json::{as_array_spec, as_str_spec, as_u64_spec, get_opt, get_spec, JsonNumber, JsonValue};
use crate::services::clients::graphql_client::{GraphQLClient, GraphQLQuery, GraphQLRequest};
use crate::services::clients::pm_client::PmClient;
use crate::text::{eq_ignore_ascii_case, eq_ignore_ascii_case_seq, parse_u64, parse_unsigned};

verus! {

/// The owner of a GitHub project: an organization or a user, by login.
pub enum GitHubProjectOwner {
    Organization(String),
    User(String),
}

impl Default for GitHubProjectOwner {
    /// An organization with an empty login.
    fn default() -> (r: Self)
        ensures
            r matches GitHubProjectOwner::Organization(o) && o@ == Seq::<char>::empty(),
    {
        GitHubProjectOwner::Organization(String::new())
    }
}

/// The query that finds the id of a project of this kind of owner.
pub open spec fn owner_query(owner: GitHubProjectOwner) -> GraphQLQuery {
    match owner {
        GitHubProjectOwner::Organization(_) => GraphQLQuery::GetProjectIdByOrganization,
        GitHubProjectOwner::User(_) => GraphQLQuery::GetProjectIdByUser,
    }
}

/// The name of the variable, and of the response field, that holds the owner.
pub open spec fn owner_field(owner: GitHubProjectOwner) -> Seq<char> {
    match owner {
        GitHubProjectOwner::Organization(_) => "organization"@,
        GitHubProjectOwner::User(_) => "user"@,
    }
}

/// The owner's login.
pub open spec fn owner_login(owner: GitHubProjectOwner) -> Seq<char> {
    match owner {
        GitHubProjectOwner::Organization(o) => o@,
        GitHubProjectOwner::User(u) => u@,
    }
}

/// Whether a JSON value is the string `s`.
pub open spec fn is_json_string(v: JsonValue, s: Seq<char>) -> bool {
    v matches JsonValue::String(x) && x@ == s
}

/// A client of one GitHub project: where it sends requests, whose project it
/// is, its number, and the name of the field that holds spent time.
pub struct GitHubClient {
    pub graphql_client: GraphQLClient,
    pub project_owner: GitHubProjectOwner,
    pub project_number: u8,
    pub spent_time_field_name: String,
}

/// Builds a [`GitHubClient`].
pub struct GitHubClientBuilder {
    pub project_owner: GitHubProjectOwner,
    pub project_number: u8,
    pub spent_time_field_name: String,
    pub auth_token: Option<String>,
}

impl Default for GitHubClientBuilder {
    /// An organization with an empty login, project number 0, an empty field
    /// name and no token.
    fn default() -> (r: Self)
        ensures
            r.project_owner matches GitHubProjectOwner::Organization(o) && o@ == Seq::<
                char,
            >::empty(),
            r.project_number == 0,
            r.spent_time_field_name@ == Seq::<char>::empty(),
            r.auth_token is None,
    {
        GitHubClientBuilder {
            project_owner: GitHubProjectOwner::default(),
            project_number: 0,
            spent_time_field_name: String::new(),
            auth_token: None,
        }
    }
}

/// The headers sent with every request: the user agent and the bearer token.
pub open spec fn github_headers(auth_token: Seq<char>) -> Seq<(Seq<char>, Seq<char>)> {
    seq![("user-agent"@, "rustytimelogger"@), ("authorization"@, "Bearer "@ + auth_token)]
}

impl GitHubClient {
    /// A builder with the default settings.
    pub fn builder() -> (r: GitHubClientBuilder)
        ensures
            r.project_owner matches GitHubProjectOwner::Organization(o) && o@ == Seq::<
                char,
            >::empty(),
            r.project_number == 0,
            r.spent_time_field_name@ == Seq::<char>::empty(),
            r.auth_token is None,
    {
        GitHubClientBuilder::default()
    }
}

impl GitHubClientBuilder {
    /// The GraphQL client of the GitHub API, authenticated with the token.
    fn graphql_client(&self) -> (r: GraphQLClient)
        requires
            self.auth_token is Some,
        ensures
            r.endpoint@ == GITHUB_PROJECT_API_URL@,
            r.headers.deep_view() == github_headers(self.auth_token->0@),
    {
        let token = match &self.auth_token {
            Some(t) => t,
            None => {
                proof {
                    assert(false);
                }
                return GraphQLClient { endpoint: String::new(), headers: Vec::new() };
            },
        };
        let mut headers: Vec<(String, String)> = Vec::new();
        headers.push((String::from_str("user-agent"), String::from_str("rustytimelogger")));
        headers.push(
            (String::from_str("authorization"), String::from_str("Bearer ").concat(token.as_str())),
        );
        assert(headers.deep_view() =~= github_headers(token@));
        let client = GraphQLClient::builder().endpoint(GITHUB_PROJECT_API_URL).default_headers(
            headers,
        ).auth_token(token.as_str()).build();
        match client {
            Ok(c) => c,
            Err(_) => GraphQLClient { endpoint: String::new(), headers: Vec::new() },
        }
    }

    /// The project belongs to the organization `organization`.
    pub fn organization(self, organization: &str) -> (r: Self)
        ensures
            r.project_owner matches GitHubProjectOwner::Organization(o) && o@ == organization@,
            r.project_number == self.project_number,
            r.spent_time_field_name == self.spent_time_field_name,
            r.auth_token == self.auth_token,
    {
        GitHubClientBuilder {
            project_owner: GitHubProjectOwner::Organization(String::from_str(organization)),
            ..self
        }
    }

    /// The project belongs to the user `user`.
    pub fn user(self, user: &str) -> (r: Self)
        ensures
            r.project_owner matches GitHubProjectOwner::User(u) && u@ == user@,
            r.project_number == self.project_number,
            r.spent_time_field_name == self.spent_time_field_name,
            r.auth_token == self.auth_token,
    {
        GitHubClientBuilder { project_owner: GitHubProjectOwner::User(String::from_str(user)), ..self }
    }

    /// The project's number.
    pub fn project_number(self, project_number: u8) -> (r: Self)
        ensures
            r.project_owner == self.project_owner,
            r.project_number == project_number,
            r.spent_time_field_name == self.spent_time_field_name,
            r.auth_token == self.auth_token,
    {
        GitHubClientBuilder { project_number, ..self }
    }

    /// The token that authenticates the requests.
    pub fn auth_token(self, auth_token: &str) -> (r: Self)
        ensures
            r.project_owner == self.project_owner,
            r.project_number == self.project_number,
            r.spent_time_field_name == self.spent_time_field_name,
            r.auth_token matches Some(t) && t@ == auth_token@,
    {
        GitHubClientBuilder { auth_token: Some(String::from_str(auth_token)), ..self }
    }

    /// The name of the project field that holds spent time.
    pub fn spent_time_field_name(self, spent_time_field_name: &str) -> (r: Self)
        ensures
            r.project_owner == self.project_owner,
            r.project_number == self.project_number,
            r.spent_time_field_name@ == spent_time_field_name@,
            r.auth_token == self.auth_token,
    {
        GitHubClientBuilder { spent_time_field_name: String::from_str(spent_time_field_name), ..self }
    }

    /// The client. The builder must hold a token.
    pub fn build(self) -> (r: Result<GitHubClient, &'static str>)
        requires
            self.auth_token is Some,
        ensures
            r matches Ok(c) && c.graphql_client.endpoint@ == GITHUB_PROJECT_API_URL@
                && c.graphql_client.headers.deep_view() == github_headers(self.auth_token->0@)
                && c.project_owner == self.project_owner && c.project_number == self.project_number
                && c.spent_time_field_name == self.spent_time_field_name,
    {
        let graphql_client = self.graphql_client();
        Ok(
            GitHubClient {
                graphql_client,
                project_owner: self.project_owner,
                project_number: self.project_number,
                spent_time_field_name: self.spent_time_field_name,
            },
        )
    }
}

// ---------------------------------------------------------------------------
// Requests
// ---------------------------------------------------------------------------

/// The request for the id of the client's project.
pub open spec fn is_project_id_request(c: GitHubClient, req: GraphQLRequest) -> bool {
    &&& req.query == owner_query(c.project_owner)
    &&& req.variables@.len() == 2
    &&& req.variables@[0].0@ == owner_field(c.project_owner)
    &&& is_json_string(req.variables@[0].1, owner_login(c.project_owner))
    &&& req.variables@[1].0@ == "projectNumber"@
    &&& req.variables@[1].1 == JsonValue::Number(JsonNumber::PosInt(c.project_number as u64))
}

/// The request for the items of the project `project_id`.
pub open spec fn is_ticket_id_request(req: GraphQLRequest, project_id: Seq<char>) -> bool {
    &&& req.query == GraphQLQuery::GetTicketId
    &&& req.variables@.len() == 1
    &&& req.variables@[0].0@ == "projectId"@
    &&& is_json_string(req.variables@[0].1, project_id)
}

/// The request for the fields of the project `project_id`.
pub open spec fn is_field_id_request(req: GraphQLRequest, project_id: Seq<char>) -> bool {
    &&& req.query == GraphQLQuery::GetFieldId
    &&& req.variables@.len() == 1
    &&& req.variables@[0].0@ == "projectId"@
    &&& is_json_string(req.variables@[0].1, project_id)
}

/// The request that sets the field `field_id` of the item `item_id` in the
/// project `project_id` to `value`.
pub open spec fn is_update_request(
    req: GraphQLRequest,
    project_id: Seq<char>,
    item_id: Seq<char>,
    field_id: Seq<char>,
    value: Seq<char>,
) -> bool {
    &&& req.query == GraphQLQuery::UpdateSpentTime
    &&& req.variables@.len() == 4
    &&& req.variables@[0].0@ == "projectId"@
    &&& is_json_string(req.variables@[0].1, project_id)
    &&& req.variables@[1].0@ == "itemId"@
    &&& is_json_string(req.variables@[1].1, item_id)
    &&& req.variables@[2].0@ == "fieldId"@
    &&& is_json_string(req.variables@[2].1, field_id)
    &&& req.variables@[3].0@ == "value"@
    &&& is_json_string(req.variables@[3].1, value)
}

fn string_variable(name: &str, value: &str) -> (r: (String, JsonValue))
    ensures
        r.0@ == name@,
        is_json_string(r.1, value@),
{
    (String::from_str(name), JsonValue::String(String::from_str(value)))
}

impl GitHubClient {
    /// The request for the id of the project.
    pub fn project_id_request(&self) -> (r: GraphQLRequest)
        ensures
            is_project_id_request(*self, r),
    {
        let mut variables: Vec<(String, JsonValue)> = Vec::new();
        let query = match &self.project_owner {
            GitHubProjectOwner::Organization(organization) => {
                variables.push(string_variable("organization", organization.as_str()));
                GraphQLQuery::GetProjectIdByOrganization
            },
            GitHubProjectOwner::User(user) => {
                variables.push(string_variable("user", user.as_str()));
                GraphQLQuery::GetProjectIdByUser
            },
        };
        variables.push(
            (
                String::from_str("projectNumber"),
                JsonValue::Number(JsonNumber::PosInt(self.project_number as u64)),
            ),
        );
        GraphQLRequest { query, variables }
    }

    /// The request for the items of the project `project_id`.
    pub fn ticket_id_request(project_id: &str) -> (r: GraphQLRequest)
        ensures
            is_ticket_id_request(r, project_id@),
    {
        let mut variables: Vec<(String, JsonValue)> = Vec::new();
        variables.push(string_variable("projectId", project_id));
        GraphQLRequest { query: GraphQLQuery::GetTicketId, variables }
    }

    /// The request for the fields of the project `project_id`.
    pub fn field_id_request(project_id: &str) -> (r: GraphQLRequest)
        ensures
            is_field_id_request(r, project_id@),
    {
        let mut variables: Vec<(String, JsonValue)> = Vec::new();
        variables.push(string_variable("projectId", project_id));
        GraphQLRequest { query: GraphQLQuery::GetFieldId, variables }
    }

    /// The request that sets a field of a project item to `value`.
    pub fn update_request(project_id: &str, item_id: &str, field_id: &str, value: &str) -> (r:
        GraphQLRequest)
        ensures
            is_update_request(r, project_id@, item_id@, field_id@, value@),
    {
        let mut variables: Vec<(String, JsonValue)> = Vec::new();
        variables.push(string_variable("projectId", project_id));
        variables.push(string_variable("itemId", item_id));
        variables.push(string_variable("fieldId", field_id));
        variables.push(string_variable("value", value));
        GraphQLRequest { query: GraphQLQuery::UpdateSpentTime, variables }
    }
}

// ---------------------------------------------------------------------------
// Answers
// ---------------------------------------------------------------------------

/// The project id in the answer to the project id request:
/// `data.<owner field>.projectV2.id`, where it is a string.
pub open spec fn project_id_of(resp: JsonValue, owner_field: Seq<char>) -> Result<
    Seq<char>,
    Seq<char>,
> {
    match as_str_spec(
        get_spec(get_spec(get_spec(get_spec(Some(resp), "data"@), owner_field), "projectV2"@), "id"@),
    ) {
        Some(id) => Ok(id),
        None => Err("Project ID not found in response"@),
    }
}

/// The ticket number of a project item: `content.number`, where it is a
/// non-negative integer.
pub open spec fn item_number(item: JsonValue) -> Option<u64> {
    as_u64_spec(get_spec(get_spec(Some(item), "content"@), "number"@))
}

/// The first item whose ticket number is `n`.
pub open spec fn first_item_numbered(items: Seq<JsonValue>, n: u64) -> Option<JsonValue>
    decreases items.len(),
{
    if items.len() == 0 {
        None
    } else if item_number(items[0]) == Some(n) {
        Some(items[0])
    } else {
        first_item_numbered(items.drop_first(), n)
    }
}

/// The id of the item of ticket `n` in the answer to the items request: the
/// `id` of the first of `data.node.items.nodes` whose ticket number is `n`,
/// where it is a string.
pub open spec fn ticket_id_of(resp: JsonValue, n: u64) -> Result<Seq<char>, Seq<char>> {
    let nodes = as_array_spec(
        get_spec(get_spec(get_spec(get_spec(Some(resp), "data"@), "node"@), "items"@), "nodes"@),
    );
    let found = match nodes {
        Some(items) => first_item_numbered(items, n),
        None => None,
    };
    match as_str_spec(get_spec(found, "id"@)) {
        Some(id) => Ok(id),
        None => Err("Ticket ID not found in response"@),
    }
}

/// The items of the answer to the items request: `data.node.items.nodes`,
/// where it is an array.
pub open spec fn project_item_nodes(resp: JsonValue) -> Option<Seq<JsonValue>> {
    as_array_spec(
        get_spec(get_spec(get_spec(get_spec(Some(resp), "data"@), "node"@), "items"@), "nodes"@),
    )
}

/// `first_item_numbered` finds the first item whose ticket number is `n`,
/// and nothing where there is none.
proof fn lemma_first_item_numbered(items: Seq<JsonValue>, n: u64)
    ensures
        first_item_numbered(items, n) matches Some(x) ==> exists|k: int|
            0 <= k < items.len() && #[trigger] items[k] == x && item_number(items[k]) == Some(n),
        first_item_numbered(items, n) is None ==> forall|k: int|
            0 <= k < items.len() ==> #[trigger] item_number(items[k]) != Some(n),
        forall|k: int|
            0 <= k < items.len() && #[trigger] item_number(items[k]) == Some(n) && (forall|j: int|
                0 <= j < k ==> item_number(items[j]) != Some(n)) ==> first_item_numbered(items, n)
                == Some(items[k]),
    decreases items.len(),
{
    if items.len() > 0 {
        let rest = items.drop_first();
        lemma_first_item_numbered(rest, n);
        if item_number(items[0]) != Some(n) {
            if first_item_numbered(rest, n) is Some {
                let k0 = choose|k: int|
                    0 <= k < rest.len() && #[trigger] rest[k] == first_item_numbered(rest, n)->Some_0
                        && item_number(rest[k]) == Some(n);
                assert(items[k0 + 1] == rest[k0]);
            } else {
                assert forall|k: int| 0 <= k < items.len() implies #[trigger] item_number(items[k])
                    != Some(n) by {
                    if k > 0 {
                        assert(items[k] == rest[k - 1]);
                    }
                }
            }
            assert forall|k: int|
                0 <= k < items.len() && #[trigger] item_number(items[k]) == Some(n) && (forall|j: int|
                    0 <= j < k ==> item_number(items[j]) != Some(n)) implies first_item_numbered(
                items,
                n,
            ) == Some(items[k]) by {
                assert(k > 0);
                assert(items[k] == rest[k - 1]);
                assert forall|j: int| 0 <= j < k - 1 implies item_number(rest[j]) != Some(n) by {
                    assert(rest[j] == items[j + 1]);
                }
            }
        } else {
            assert forall|k: int|
                0 <= k < items.len() && #[trigger] item_number(items[k]) == Some(n) && (forall|j: int|
                    0 <= j < k ==> item_number(items[j]) != Some(n)) implies first_item_numbered(
                items,
                n,
            ) == Some(items[k]) by {
                if k > 0 {
                    assert(item_number(items[0]) != Some(n));
                }
            }
        }
    }
}

/// The item id found for ticket `n` is the id of an item whose
/// `content.number` is `n`; where no item has that number, none is found;
/// and where the first item with that number has a string id, that id is
/// found.
pub proof fn law_ticket_id_is_that_tickets_item(resp: JsonValue, items: Seq<JsonValue>, n: u64)
    requires
        project_item_nodes(resp) == Some(items),
    ensures
        ticket_id_of(resp, n) matches Ok(id) ==> exists|k: int|
            0 <= k < items.len() && #[trigger] item_number(items[k]) == Some(n) && as_str_spec(
                get_spec(Some(items[k]), "id"@),
            ) == Some(id),
        (forall|k: int| 0 <= k < items.len() ==> #[trigger] item_number(items[k]) != Some(n))
            ==> ticket_id_of(resp, n) is Err,
        forall|k: int|
            0 <= k < items.len() && #[trigger] item_number(items[k]) == Some(n) && (forall|j: int|
                0 <= j < k ==> item_number(items[j]) != Some(n)) && as_str_spec(
                get_spec(Some(items[k]), "id"@),
            ) is Some ==> ticket_id_of(resp, n) == Ok::<Seq<char>, Seq<char>>(
                as_str_spec(get_spec(Some(items[k]), "id"@))->Some_0,
            ),
{
    lemma_first_item_numbered(items, n);
    if first_item_numbered(items, n) is Some {
        let x = first_item_numbered(items, n)->Some_0;
        let k0 = choose|k: int|
            0 <= k < items.len() && #[trigger] items[k] == x && item_number(items[k]) == Some(n);
        assert(item_number(items[k0]) == Some(n));
    }
}

/// Whether a project field is named `name`, up to ASCII case.
pub open spec fn field_named(field: JsonValue, name: Seq<char>) -> bool {
    as_str_spec(get_spec(Some(field), "name"@)) matches Some(n) && eq_ignore_ascii_case_seq(
        n,
        name,
    )
}

/// The first field named `name`, up to ASCII case.
pub open spec fn first_field_named(fields: Seq<JsonValue>, name: Seq<char>) -> Option<JsonValue>
    decreases fields.len(),
{
    if fields.len() == 0 {
        None
    } else if field_named(fields[0], name) {
        Some(fields[0])
    } else {
        first_field_named(fields.drop_first(), name)
    }
}

/// The id of the field named `name` in the answer to the fields request: the
/// `id` of the first of `data.node.fields.nodes` whose `name` is `name` up to
/// ASCII case, where it is a string.
pub open spec fn field_id_of(resp: JsonValue, name: Seq<char>) -> Result<Seq<char>, Seq<char>> {
    let nodes = as_array_spec(
        get_spec(get_spec(get_spec(get_spec(Some(resp), "data"@), "node"@), "fields"@), "nodes"@),
    );
    let found = match nodes {
        Some(fields) => first_field_named(fields, name),
        None => None,
    };
    match as_str_spec(get_spec(found, "id"@)) {
        Some(id) => Ok(id),
        None => Err("Field ID not found in response"@),
    }
}

fn found_id(v: Option<&JsonValue>, missing: &str) -> (r: Result<String, String>)
    ensures
        match as_str_spec(
            match v {
                Some(x) => Some(*x),
                None => None,
            },
        ) {
            Some(id) => r matches Ok(x) && x@ == id,
            None => r matches Err(m) && m@ == missing@,
        },
{
    match v {
        Some(x) => match x.as_str() {
            Some(id) => Ok(id),
            None => Err(String::from_str(missing)),
        },
        None => Err(String::from_str(missing)),
    }
}

fn nodes_of<'a>(resp: &'a JsonValue, container: &str) -> (r: Option<&'a Vec<JsonValue>>)
    ensures
        match as_array_spec(
            get_spec(
                get_spec(get_spec(get_spec(Some(*resp), "data"@), "node"@), container@),
                "nodes"@,
            ),
        ) {
            Some(items) => r matches Some(x) && x@ == items,
            None => r is None,
        },
{
    let nodes = get_opt(get_opt(get_opt(resp.get("data"), "node"), container), "nodes");
    match nodes {
        Some(v) => v.as_array(),
        None => None,
    }
}

impl GitHubClient {
    /// The project id in the answer to the project id request.
    pub fn project_id_from_response(&self, resp: &JsonValue) -> (r: Result<String, String>)
        ensures
            match project_id_of(*resp, owner_field(self.project_owner)) {
                Ok(id) => r matches Ok(x) && x@ == id,
                Err(e) => r matches Err(m) && m@ == e,
            },
    {
        let owner = match &self.project_owner {
            GitHubProjectOwner::Organization(_) => "organization",
            GitHubProjectOwner::User(_) => "user",
        };
        let v = get_opt(get_opt(resp.get("data"), owner), "projectV2");
        found_id(get_opt(v, "id"), "Project ID not found in response")
    }

    /// The id of the item of ticket `ticket_number` in the answer to the
    /// items request.
    pub fn ticket_id_from_response(resp: &JsonValue, ticket_number: u64) -> (r: Result<
        String,
        String,
    >)
        ensures
            match ticket_id_of(*resp, ticket_number) {
                Ok(id) => r matches Ok(x) && x@ == id,
                Err(e) => r matches Err(m) && m@ == e,
            },
    {
        let mut found: Option<&JsonValue> = None;
        match nodes_of(resp, "items") {
            Some(items) => {
                let n = items.len();
                assert(items@.skip(0) =~= items@);
                let mut i: usize = 0;
                while i < n && found.is_none()
                    invariant
                        n == items@.len(),
                        i <= n,
                        match found {
                            None => first_item_numbered(items@, ticket_number) == first_item_numbered(
                                items@.skip(i as int),
                                ticket_number,
                            ),
                            Some(x) => first_item_numbered(items@, ticket_number) == Some(*x),
                        },
                    decreases n - i,
                {
                    proof {
                        assert(items@.skip(i as int).drop_first() =~= items@.skip(i + 1));
                        assert(items@.skip(i as int)[0] == items@[i as int]);
                    }
                    let item = &items[i];
                    let number = get_opt(item.get("content"), "number");
                    let matches = match number {
                        Some(x) => match x.as_u64() {
                            Some(v) => v == ticket_number,
                            None => false,
                        },
                        None => false,
                    };
                    if matches {
                        found = Some(item);
                    }
                    i = i + 1;
                }
                proof {
                    if found is None {
                        assert(items@.skip(n as int) =~= Seq::<JsonValue>::empty());
                    }
                }
            },
            None => {},
        }
        found_id(get_opt(found, "id"), "Ticket ID not found in response")
    }

    /// The id of the field named `field_name`, up to ASCII case, in the
    /// answer to the fields request.
    pub fn field_id_from_response(resp: &JsonValue, field_name: &str) -> (r: Result<
        String,
        String,
    >)
        ensures
            match field_id_of(*resp, field_name@) {
                Ok(id) => r matches Ok(x) && x@ == id,
                Err(e) => r matches Err(m) && m@ == e,
            },
    {
        let mut found: Option<&JsonValue> = None;
        match nodes_of(resp, "fields") {
            Some(fields) => {
                let n = fields.len();
                assert(fields@.skip(0) =~= fields@);
                let mut i: usize = 0;
                while i < n && found.is_none()
                    invariant
                        n == fields@.len(),
                        i <= n,
                        match found {
                            None => first_field_named(fields@, field_name@) == first_field_named(
                                fields@.skip(i as int),
                                field_name@,
                            ),
                            Some(x) => first_field_named(fields@, field_name@) == Some(*x),
                        },
                    decreases n - i,
                {
                    proof {
                        assert(fields@.skip(i as int).drop_first() =~= fields@.skip(i + 1));
                        assert(fields@.skip(i as int)[0] == fields@[i as int]);
                    }
                    let field = &fields[i];
                    let named = match field.get("name") {
                        Some(x) => match x.as_str() {
                            Some(name) => eq_ignore_ascii_case(name.as_str(), field_name),
                            None => false,
                        },
                        None => false,
                    };
                    if named {
                        found = Some(field);
                    }
                    i = i + 1;
                }
                proof {
                    if found is None {
                        assert(fields@.skip(n as int) =~= Seq::<JsonValue>::empty());
                    }
                }
            },
            None => {},
        }
        found_id(get_opt(found, "id"), "Field ID not found in response")
    }
}

// ---------------------------------------------------------------------------
// Recording spent time
// ---------------------------------------------------------------------------

/// What came back for a GraphQL request: the transport failed (with its
/// error text), the body was not JSON (with the parser's error text), or the
/// body as a JSON value.
pub enum GraphQLReply {
    Failed(String),
    Malformed(String),
    Json(JsonValue),
}

/// The JSON answer of a reply, or the error that reading it gives.
pub open spec fn reply_json(reply: GraphQLReply) -> Result<JsonValue, Seq<char>> {
    match reply {
        GraphQLReply::Failed(e) => Err("Error executing GraphQL query: "@ + e@),
        GraphQLReply::Malformed(e) => Err("Error parsing response: "@ + e@),
        GraphQLReply::Json(j) => Ok(j),
    }
}

/// Where the recording of spent time on a ticket stands: the request that
/// was sent last and what is known so far.
pub enum SpentTimeProgress {
    AwaitingProjectId,
    AwaitingTicketId { project_id: String, ticket_number: u64 },
    AwaitingFieldId { project_id: String, item_id: String },
    AwaitingUpdate,
    Done,
}

/// What the caller does next: send a request, finish with a result, or stop
/// the program with a message (the service answered in a way that the
/// client does not recover from).
pub enum SpentTimeAction {
    Send(GraphQLRequest),
    Finish(Result<(), String>),
    Abort(String),
}

/// The message with which recording stops when the ticket id is not a
/// number.
pub open spec fn ticket_id_not_a_number() -> Seq<char> {
    "the ticket id is not a number"@
}

fn reply_json_of(reply: &GraphQLReply) -> (r: Result<&JsonValue, String>)
    ensures
        match reply_json(*reply) {
            Ok(j) => r matches Ok(x) && *x == j,
            Err(e) => r matches Err(m) && m@ == e,
        },
{
    match reply {
        GraphQLReply::Failed(e) => Err(
            String::from_str("Error executing GraphQL query: ").concat(e.as_str()),
        ),
        GraphQLReply::Malformed(e) => Err(String::from_str("Error parsing response: ").concat(e.as_str())),
        GraphQLReply::Json(j) => Ok(j),
    }
}

/// The project id read from a reply, or the reply's error.
pub open spec fn reply_project_id(reply: GraphQLReply, owner_field: Seq<char>) -> Result<
    Seq<char>,
    Seq<char>,
> {
    match reply_json(reply) {
        Ok(j) => project_id_of(j, owner_field),
        Err(e) => Err(e),
    }
}

/// The item id of ticket `n` read from a reply, or the reply's error.
pub open spec fn reply_ticket_id(reply: GraphQLReply, n: u64) -> Result<Seq<char>, Seq<char>> {
    match reply_json(reply) {
        Ok(j) => ticket_id_of(j, n),
        Err(e) => Err(e),
    }
}

/// The id of the field named `name` read from a reply, or the reply's error.
pub open spec fn reply_field_id(reply: GraphQLReply, name: Seq<char>) -> Result<
    Seq<char>,
    Seq<char>,
> {
    match reply_json(reply) {
        Ok(j) => field_id_of(j, name),
        Err(e) => Err(e),
    }
}

impl GitHubClient {
    /// The step that follows a reply while recording `time` on the ticket
    /// `ticket_id`.
    pub open spec fn spent_time_step_ok(
        self,
        ticket_id: Seq<char>,
        time: Seq<char>,
        progress: SpentTimeProgress,
        reply: GraphQLReply,
        r: (SpentTimeProgress, SpentTimeAction),
    ) -> bool {
        match progress {
            SpentTimeProgress::AwaitingProjectId => match reply_project_id(reply, owner_field(self.project_owner)) {
                Err(e) => aborts_with(r, e),
                Ok(p) => match parse_unsigned(ticket_id, u64::MAX as int) {
                    None => aborts_with(r, ticket_id_not_a_number()),
                    Some(n) => {
                        &&& r.0 matches SpentTimeProgress::AwaitingTicketId {
                            project_id,
                            ticket_number,
                        } && project_id@ == p && ticket_number == n
                        &&& r.1 matches SpentTimeAction::Send(req) && is_ticket_id_request(req, p)
                    },
                },
            },
            SpentTimeProgress::AwaitingTicketId { project_id, ticket_number } => match reply_ticket_id(reply, ticket_number) {
                Err(e) => aborts_with(r, e),
                Ok(item) => {
                    &&& r.0 matches SpentTimeProgress::AwaitingFieldId { project_id: p2, item_id }
                        && p2@ == project_id@ && item_id@ == item
                    &&& r.1 matches SpentTimeAction::Send(req) && is_field_id_request(
                        req,
                        project_id@,
                    )
                },
            },
            SpentTimeProgress::AwaitingFieldId { project_id, item_id } => match reply_field_id(reply, self.spent_time_field_name@) {
                Err(e) => aborts_with(r, e),
                Ok(field) => {
                    &&& r.0 is AwaitingUpdate
                    &&& r.1 matches SpentTimeAction::Send(req) && is_update_request(
                        req,
                        project_id@,
                        item_id@,
                        field,
                        time,
                    )
                },
            },
            SpentTimeProgress::AwaitingUpdate => {
                &&& r.0 is Done
                &&& match reply {
                    GraphQLReply::Failed(e) => r.1 matches SpentTimeAction::Finish(Err(m)) && m@
                        == "Error executing GraphQL query: "@ + e@,
                    _ => r.1 matches SpentTimeAction::Finish(Ok(())),
                }
            },
            SpentTimeProgress::Done => {
                &&& r.0 is Done
                &&& r.1 matches SpentTimeAction::Finish(Ok(()))
            },
        }
    }
}

/// The recording is over and the program stops with the message `e`.
pub open spec fn aborts_with(r: (SpentTimeProgress, SpentTimeAction), e: Seq<char>) -> bool {
    &&& r.0 is Done
    &&& r.1 matches SpentTimeAction::Abort(m) && m@ == e
}

impl PmClient for GitHubClient {
    type Progress = SpentTimeProgress;

    type Action = SpentTimeAction;

    type Reply = GraphQLReply;

    /// Starts by asking for the id of the project.
    fn set_spent_time(&self, ticket_id: &str, time: &str) -> (r: (SpentTimeProgress, SpentTimeAction))
        ensures
            r.0 is AwaitingProjectId,
            r.1 matches SpentTimeAction::Send(req) && is_project_id_request(*self, req),
    {
        (SpentTimeProgress::AwaitingProjectId, SpentTimeAction::Send(self.project_id_request()))
    }

    /// With the project id, asks for the project's items; with the item of
    /// the ticket, asks for the project's fields; with the spent time field,
    /// sends the update; with the update's answer, finishes. A failed or
    /// unreadable answer before the update, a ticket id that is not a
    /// number, or a missing project, item or field stops the program.
    fn set_spent_time_step(
        &self,
        ticket_id: &str,
        time: &str,
        progress: SpentTimeProgress,
        reply: &GraphQLReply,
    ) -> (r: (SpentTimeProgress, SpentTimeAction))
        ensures
            self.spent_time_step_ok(ticket_id@, time@, progress, *reply, r),
    {
        match progress {
            SpentTimeProgress::AwaitingProjectId => {
                let read = match reply_json_of(reply) {
                    Ok(j) => self.project_id_from_response(j),
                    Err(e) => Err(e),
                };
                match read {
                    Err(e) => (SpentTimeProgress::Done, SpentTimeAction::Abort(e)),
                    Ok(project_id) => match parse_u64(ticket_id) {
                        None => (
                            SpentTimeProgress::Done,
                            SpentTimeAction::Abort(
                                String::from_str("the ticket id is not a number"),
                            ),
                        ),
                        Some(ticket_number) => {
                            let req = Self::ticket_id_request(project_id.as_str());
                            (
                                SpentTimeProgress::AwaitingTicketId { project_id, ticket_number },
                                SpentTimeAction::Send(req),
                            )
                        },
                    },
                }
            },
            SpentTimeProgress::AwaitingTicketId { project_id, ticket_number } => {
                let read = match reply_json_of(reply) {
                    Ok(j) => Self::ticket_id_from_response(j, ticket_number),
                    Err(e) => Err(e),
                };
                match read {
                    Err(e) => (SpentTimeProgress::Done, SpentTimeAction::Abort(e)),
                    Ok(item_id) => {
                        let req = Self::field_id_request(project_id.as_str());
                        (
                            SpentTimeProgress::AwaitingFieldId { project_id, item_id },
                            SpentTimeAction::Send(req),
                        )
                    },
                }
            },
            SpentTimeProgress::AwaitingFieldId { project_id, item_id } => {
                let read = match reply_json_of(reply) {
                    Ok(j) => Self::field_id_from_response(j, self.spent_time_field_name.as_str()),
                    Err(e) => Err(e),
                };
                match read {
                    Err(e) => (SpentTimeProgress::Done, SpentTimeAction::Abort(e)),
                    Ok(field_id) => {
                        let req = Self::update_request(
                            project_id.as_str(),
                            item_id.as_str(),
                            field_id.as_str(),
                            time,
                        );
                        (SpentTimeProgress::AwaitingUpdate, SpentTimeAction::Send(req))
                    },
                }
            },
            SpentTimeProgress::AwaitingUpdate => match reply {
                GraphQLReply::Failed(e) => (
                    SpentTimeProgress::Done,
                    SpentTimeAction::Finish(
                        Err(String::from_str("Error executing GraphQL query: ").concat(e.as_str())),
                    ),
                ),
                _ => (SpentTimeProgress::Done, SpentTimeAction::Finish(Ok(()))),
            },
            SpentTimeProgress::Done => (SpentTimeProgress::Done, SpentTimeAction::Finish(Ok(()))),
        }
    }
}

} // verus!
