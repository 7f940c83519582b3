use rusty_time_logger::json::{JsonNumber, JsonValue};
use rusty_time_logger::services::clients::github_client::{
    GitHubClient, GitHubClientBuilder, GitHubProjectOwner, GraphQLReply, SpentTimeAction,
    SpentTimeProgress,
};
use rusty_time_logger::services::clients::graphql_client::{GraphQLClient, GraphQLQuery};
use rusty_time_logger::services::clients::pm_client::PmClient;

fn s(x: &str) -> JsonValue {
    JsonValue::String(x.to_string())
}

fn n(x: u64) -> JsonValue {
    JsonValue::Number(JsonNumber::PosInt(x))
}

fn obj(members: Vec<(&str, JsonValue)>) -> JsonValue {
    JsonValue::Object(members.into_iter().map(|(k, v)| (k.to_string(), v)).collect())
}

fn client() -> GitHubClient {
    GitHubClient::builder()
        .auth_token("tok")
        .organization("acme")
        .project_number(7)
        .spent_time_field_name("Spent Time")
        .build()
        .ok()
        .unwrap()
}

fn project_answer(owner: &str, id: &str) -> JsonValue {
    obj(vec![("data", obj(vec![(owner, obj(vec![("projectV2", obj(vec![("id", s(id))]))]))]))])
}

fn items_answer(items: Vec<JsonValue>) -> JsonValue {
    obj(vec![("data", obj(vec![("node", obj(vec![("items", obj(vec![("nodes", JsonValue::Array(items))]))]))]))])
}

fn fields_answer(fields: Vec<JsonValue>) -> JsonValue {
    obj(vec![("data", obj(vec![("node", obj(vec![("fields", obj(vec![("nodes", JsonValue::Array(fields))]))]))]))])
}

fn item(number: JsonValue, id: &str) -> JsonValue {
    obj(vec![("id", s(id)), ("content", obj(vec![("number", number)]))])
}

fn field(name: &str, id: &str) -> JsonValue {
    obj(vec![("name", s(name)), ("id", s(id))])
}

fn string_vars(vars: &[(String, JsonValue)]) -> Vec<(String, String)> {
    vars.iter()
        .map(|(k, v)| match v {
            JsonValue::String(x) => (k.clone(), x.clone()),
            _ => (k.clone(), "<not a string>".to_string()),
        })
        .collect()
}

#[test]
fn query_names_are_snake_case() {
    assert_eq!(GraphQLQuery::GetProjectId.to_string(), "get_project_id");
    assert_eq!(GraphQLQuery::GetProjectIdByOrganization.to_string(), "get_project_id_by_organization");
    assert_eq!(GraphQLQuery::GetProjectIdByUser.to_string(), "get_project_id_by_user");
    assert_eq!(GraphQLQuery::GetTicketId.to_string(), "get_ticket_id");
    assert_eq!(GraphQLQuery::GetFieldId.to_string(), "get_field_id");
    assert_eq!(GraphQLQuery::UpdateSpentTime.to_string(), "update_spent_time");
}

#[test]
fn graphql_client_builder() {
    let headers = vec![("a".to_string(), "b".to_string())];
    let c = GraphQLClient::builder().endpoint("https://e").default_headers(headers.clone()).auth_token("t").build().ok().unwrap();
    assert_eq!(c.endpoint, "https://e");
    assert_eq!(c.headers, headers);
}

#[test]
fn builder_defaults_and_settings() {
    let b = GitHubClient::builder();
    assert!(matches!(&b.project_owner, GitHubProjectOwner::Organization(o) if o.is_empty()));
    assert_eq!(b.project_number, 0);
    assert_eq!(b.spent_time_field_name, "");
    assert!(b.auth_token.is_none());
    let d = GitHubClientBuilder::default();
    assert_eq!(d.project_number, 0);
    let b = b.user("me").project_number(3).spent_time_field_name("F").auth_token("x");
    assert!(matches!(&b.project_owner, GitHubProjectOwner::User(u) if u == "me"));
    assert_eq!(b.project_number, 3);
    assert_eq!(b.spent_time_field_name, "F");
    assert_eq!(b.auth_token.as_deref(), Some("x"));
    let b = b.organization("org");
    assert!(matches!(&b.project_owner, GitHubProjectOwner::Organization(o) if o == "org"));
    assert!(matches!(GitHubProjectOwner::default(), GitHubProjectOwner::Organization(o) if o.is_empty()));
}

#[test]
fn built_client_carries_the_token_in_its_headers() {
    let c = client();
    assert_eq!(c.graphql_client.endpoint, "https://api.github.com/graphql");
    assert_eq!(
        c.graphql_client.headers,
        vec![
            ("user-agent".to_string(), "rustytimelogger".to_string()),
            ("authorization".to_string(), "Bearer tok".to_string()),
        ]
    );
}

#[test]
fn project_id_requests_by_owner() {
    let r = client().project_id_request();
    assert_eq!(r.query, GraphQLQuery::GetProjectIdByOrganization);
    assert_eq!(r.variables.len(), 2);
    assert_eq!(r.variables[0].0, "organization");
    assert!(matches!(&r.variables[0].1, JsonValue::String(x) if x == "acme"));
    assert_eq!(r.variables[1].0, "projectNumber");
    assert!(matches!(r.variables[1].1, JsonValue::Number(JsonNumber::PosInt(7))));
    let u = GitHubClient::builder().user("me").auth_token("t").build().ok().unwrap();
    let r = u.project_id_request();
    assert_eq!(r.query, GraphQLQuery::GetProjectIdByUser);
    assert_eq!(r.variables[0].0, "user");
}

#[test]
fn reading_the_project_id() {
    let c = client();
    assert_eq!(c.project_id_from_response(&project_answer("organization", "P1")), Ok("P1".to_string()));
    assert_eq!(
        c.project_id_from_response(&project_answer("user", "P1")),
        Err("Project ID not found in response".to_string())
    );
    assert_eq!(
        c.project_id_from_response(&JsonValue::Null),
        Err("Project ID not found in response".to_string())
    );
}

#[test]
fn reading_the_item_of_a_ticket() {
    let answer = items_answer(vec![item(n(1), "I1"), item(s("2"), "I2x"), item(n(2), "I2"), item(n(2), "I2b")]);
    assert_eq!(GitHubClient::ticket_id_from_response(&answer, 2), Ok("I2".to_string()));
    assert_eq!(GitHubClient::ticket_id_from_response(&answer, 1), Ok("I1".to_string()));
    assert_eq!(
        GitHubClient::ticket_id_from_response(&answer, 3),
        Err("Ticket ID not found in response".to_string())
    );
    let neg = items_answer(vec![item(JsonValue::Number(JsonNumber::NegInt(-2)), "N")]);
    assert_eq!(
        GitHubClient::ticket_id_from_response(&neg, 2),
        Err("Ticket ID not found in response".to_string())
    );
}

#[test]
fn reading_the_spent_time_field() {
    let answer = fields_answer(vec![field("Title", "F0"), field("spent time", "F1"), field("SPENT TIME", "F2")]);
    assert_eq!(GitHubClient::field_id_from_response(&answer, "Spent Time"), Ok("F1".to_string()));
    assert_eq!(
        GitHubClient::field_id_from_response(&answer, "Estimate"),
        Err("Field ID not found in response".to_string())
    );
}

#[test]
fn recording_spent_time_step_by_step() {
    let c = client();
    let (p, a) = c.set_spent_time("12", "01:00:00");
    assert!(matches!(p, SpentTimeProgress::AwaitingProjectId));
    assert!(matches!(&a, SpentTimeAction::Send(r) if r.query == GraphQLQuery::GetProjectIdByOrganization));

    let (p, a) = c.set_spent_time_step("12", "01:00:00", p, &GraphQLReply::Json(project_answer("organization", "P")));
    assert!(matches!(&p, SpentTimeProgress::AwaitingTicketId { project_id, ticket_number: 12 } if project_id == "P"));
    match &a {
        SpentTimeAction::Send(r) => {
            assert_eq!(r.query, GraphQLQuery::GetTicketId);
            assert_eq!(string_vars(&r.variables), vec![("projectId".to_string(), "P".to_string())]);
        }
        _ => panic!("expected a request"),
    }

    let (p, a) = c.set_spent_time_step("12", "01:00:00", p, &GraphQLReply::Json(items_answer(vec![item(n(12), "I")])));
    assert!(matches!(&p, SpentTimeProgress::AwaitingFieldId { project_id, item_id } if project_id == "P" && item_id == "I"));
    assert!(matches!(&a, SpentTimeAction::Send(r) if r.query == GraphQLQuery::GetFieldId));

    let (p, a) = c.set_spent_time_step("12", "01:00:00", p, &GraphQLReply::Json(fields_answer(vec![field("spent time", "F")])));
    assert!(matches!(p, SpentTimeProgress::AwaitingUpdate));
    match &a {
        SpentTimeAction::Send(r) => {
            assert_eq!(r.query, GraphQLQuery::UpdateSpentTime);
            let pair = |k: &str, v: &str| (k.to_string(), v.to_string());
            assert_eq!(
                string_vars(&r.variables),
                vec![pair("projectId", "P"), pair("itemId", "I"), pair("fieldId", "F"), pair("value", "01:00:00")]
            );
        }
        _ => panic!("expected a request"),
    }

    let (p, a) = c.set_spent_time_step("12", "01:00:00", p, &GraphQLReply::Malformed("not json".to_string()));
    assert!(matches!(p, SpentTimeProgress::Done));
    assert!(matches!(a, SpentTimeAction::Finish(Ok(()))));
}

#[test]
fn failures_while_recording_spent_time() {
    let c = client();
    let (_, a) = c.set_spent_time_step("12", "t", SpentTimeProgress::AwaitingProjectId, &GraphQLReply::Failed("timeout".to_string()));
    assert!(matches!(a, SpentTimeAction::Abort(m) if m == "Error executing GraphQL query: timeout"));
    let (_, a) = c.set_spent_time_step("12", "t", SpentTimeProgress::AwaitingProjectId, &GraphQLReply::Malformed("eof".to_string()));
    assert!(matches!(a, SpentTimeAction::Abort(m) if m == "Error parsing response: eof"));
    let (_, a) = c.set_spent_time_step("1x", "t", SpentTimeProgress::AwaitingProjectId, &GraphQLReply::Json(project_answer("organization", "P")));
    assert!(matches!(a, SpentTimeAction::Abort(m) if m == "the ticket id is not a number"));
    let waiting = SpentTimeProgress::AwaitingTicketId { project_id: "P".to_string(), ticket_number: 5 };
    let (_, a) = c.set_spent_time_step("5", "t", waiting, &GraphQLReply::Json(items_answer(vec![])));
    assert!(matches!(a, SpentTimeAction::Abort(m) if m == "Ticket ID not found in response"));
    let (p, a) = c.set_spent_time_step("5", "t", SpentTimeProgress::AwaitingUpdate, &GraphQLReply::Failed("down".to_string()));
    assert!(matches!(p, SpentTimeProgress::Done));
    assert!(matches!(a, SpentTimeAction::Finish(Err(m)) if m == "Error executing GraphQL query: down"));
}

#[test]
fn json_lookups() {
    let v = obj(vec![("a", n(1)), ("b", s("x")), ("a", n(2))]);
    assert!(matches!(v.get("a"), Some(JsonValue::Number(JsonNumber::PosInt(1)))));
    assert!(v.get("c").is_none());
    assert!(s("x").get("a").is_none());
    assert_eq!(s("x").as_str().as_deref(), Some("x"));
    assert_eq!(n(5).as_u64(), Some(5));
    assert_eq!(JsonValue::Number(JsonNumber::Float).as_u64(), None);
    assert_eq!(JsonValue::Array(vec![n(1)]).as_array().map(|a| a.len()), Some(1));
    assert!(JsonValue::Bool(true).as_array().is_none());
}
