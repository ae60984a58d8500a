use app_route::RouteParseErr;
use app_route::params::{parse_string_param, parse_u32_param, parse_u64_param, parse_u8_param};
use serde::ser::SerializeStruct;
use app_route::query::{parse_optional_query, parse_required_query};
use app_route::route::CompiledRoute;

#[derive(Debug, PartialEq)]
struct UserListQuery {
    limit: Option<u64>,
    offset: Option<u64>,
    keyword: Option<String>,
    friends_only: bool,
}

struct UserListQueryVisitor;

impl<'de> serde::de::Visitor<'de> for UserListQueryVisitor {
    type Value = UserListQuery;

    fn expecting(&self, f: &mut std::fmt::Formatter) -> std::fmt::Result {
        f.write_str("struct UserListQuery")
    }

    fn visit_map<A: serde::de::MapAccess<'de>>(self, mut map: A) -> Result<UserListQuery, A::Error> {
        let mut limit: Option<u64> = None;
        let mut offset: Option<u64> = None;
        let mut keyword: Option<String> = None;
        let mut friends_only: Option<bool> = None;
        while let Some(key) = map.next_key::<String>()? {
            match key.as_str() {
                "limit" => {
                    limit = map.next_value::<Option<u64>>()?;
                }
                "offset" => {
                    offset = map.next_value::<Option<u64>>()?;
                }
                "keyword" => {
                    keyword = map.next_value::<Option<String>>()?;
                }
                "friends_only" => {
                    friends_only = Some(map.next_value::<bool>()?);
                }
                _ => {
                    map.next_value::<serde::de::IgnoredAny>()?;
                }
            }
        }
        Ok(UserListQuery { limit, offset, keyword, friends_only: friends_only.unwrap_or(false) })
    }
}

impl<'de> serde::Deserialize<'de> for UserListQuery {
    fn deserialize<D: serde::Deserializer<'de>>(d: D) -> Result<Self, D::Error> {
        d.deserialize_map(UserListQueryVisitor)
    }
}

#[derive(Debug, PartialEq)]
pub struct Building {
    name: String,
    number: Option<u32>,
}

struct BuildingVisitor;

impl<'de> serde::de::Visitor<'de> for BuildingVisitor {
    type Value = Building;

    fn expecting(&self, f: &mut std::fmt::Formatter) -> std::fmt::Result {
        f.write_str("struct Building")
    }

    fn visit_map<A: serde::de::MapAccess<'de>>(self, mut map: A) -> Result<Building, A::Error> {
        let mut name: Option<String> = None;
        let mut number: Option<u32> = None;
        while let Some(key) = map.next_key::<String>()? {
            match key.as_str() {
                "name" => {
                    name = Some(map.next_value::<String>()?);
                }
                "number" => {
                    number = map.next_value::<Option<u32>>()?;
                }
                _ => {
                    map.next_value::<serde::de::IgnoredAny>()?;
                }
            }
        }
        match name {
            Some(name) => Ok(Building { name, number }),
            None => Err(serde::de::Error::missing_field("name")),
        }
    }
}

impl<'de> serde::Deserialize<'de> for Building {
    fn deserialize<D: serde::Deserializer<'de>>(d: D) -> Result<Self, D::Error> {
        d.deserialize_map(BuildingVisitor)
    }
}

#[derive(Debug, PartialEq)]
pub enum Country {
    CountryA,
    CountryB,
    CountryC,
}

impl<'de> serde::Deserialize<'de> for Country {
    fn deserialize<D: serde::Deserializer<'de>>(d: D) -> Result<Self, D::Error> {
        let s = String::deserialize(d)?;
        match s.as_str() {
            "country_a" => Ok(Country::CountryA),
            "country_b" => Ok(Country::CountryB),
            "country_c" => Ok(Country::CountryC),
            _ => Err(serde::de::Error::unknown_variant(
                &s,
                &["country_a", "country_b", "country_c"],
            )),
        }
    }
}

#[derive(Debug, PartialEq)]
pub struct Address {
    street_name: Option<String>,
    apt_number: Option<u32>,
    country: Option<Country>,
    building: Option<Building>,
}

struct AddressVisitor;

impl<'de> serde::de::Visitor<'de> for AddressVisitor {
    type Value = Address;

    fn expecting(&self, f: &mut std::fmt::Formatter) -> std::fmt::Result {
        f.write_str("struct Address")
    }

    fn visit_map<A: serde::de::MapAccess<'de>>(self, mut map: A) -> Result<Address, A::Error> {
        let mut street_name: Option<String> = None;
        let mut apt_number: Option<u32> = None;
        let mut country: Option<Country> = None;
        let mut building: Option<Building> = None;
        while let Some(key) = map.next_key::<String>()? {
            match key.as_str() {
                "street_name" => {
                    street_name = map.next_value::<Option<String>>()?;
                }
                "apt_number" => {
                    apt_number = map.next_value::<Option<u32>>()?;
                }
                "country" => {
                    country = map.next_value::<Option<Country>>()?;
                }
                "building" => {
                    building = map.next_value::<Option<Building>>()?;
                }
                _ => {
                    map.next_value::<serde::de::IgnoredAny>()?;
                }
            }
        }
        Ok(Address { street_name, apt_number, country, building })
    }
}

impl<'de> serde::Deserialize<'de> for Address {
    fn deserialize<D: serde::Deserializer<'de>>(d: D) -> Result<Self, D::Error> {
        d.deserialize_map(AddressVisitor)
    }
}

#[derive(Debug, PartialEq)]
pub struct ParentQuery {
    address: Option<Address>,
}

struct ParentQueryVisitor;

impl<'de> serde::de::Visitor<'de> for ParentQueryVisitor {
    type Value = ParentQuery;

    fn expecting(&self, f: &mut std::fmt::Formatter) -> std::fmt::Result {
        f.write_str("struct ParentQuery")
    }

    fn visit_map<A: serde::de::MapAccess<'de>>(self, mut map: A) -> Result<ParentQuery, A::Error> {
        let mut address: Option<Address> = None;
        while let Some(key) = map.next_key::<String>()? {
            match key.as_str() {
                "address" => {
                    address = map.next_value::<Option<Address>>()?;
                }
                _ => {
                    map.next_value::<serde::de::IgnoredAny>()?;
                }
            }
        }
        Ok(ParentQuery { address })
    }
}

impl<'de> serde::Deserialize<'de> for ParentQuery {
    fn deserialize<D: serde::Deserializer<'de>>(d: D) -> Result<Self, D::Error> {
        d.deserialize_map(ParentQueryVisitor)
    }
}

#[derive(Debug, PartialEq)]
pub struct VecQuery {
    friend_ids: Vec<u32>,
}

struct VecQueryVisitor;

impl<'de> serde::de::Visitor<'de> for VecQueryVisitor {
    type Value = VecQuery;

    fn expecting(&self, f: &mut std::fmt::Formatter) -> std::fmt::Result {
        f.write_str("struct VecQuery")
    }

    fn visit_map<A: serde::de::MapAccess<'de>>(self, mut map: A) -> Result<VecQuery, A::Error> {
        let mut friend_ids: Option<Vec<u32>> = None;
        while let Some(key) = map.next_key::<String>()? {
            match key.as_str() {
                "friend_ids" => {
                    friend_ids = Some(map.next_value::<Vec<u32>>()?);
                }
                _ => {
                    map.next_value::<serde::de::IgnoredAny>()?;
                }
            }
        }
        match friend_ids {
            Some(friend_ids) => Ok(VecQuery { friend_ids }),
            None => Err(serde::de::Error::missing_field("friend_ids")),
        }
    }
}

impl<'de> serde::Deserialize<'de> for VecQuery {
    fn deserialize<D: serde::Deserializer<'de>>(d: D) -> Result<Self, D::Error> {
        d.deserialize_map(VecQueryVisitor)
    }
}

#[derive(Debug, PartialEq)]
pub enum SortDirection {
    Asc,
    Desc,
}

impl<'de> serde::Deserialize<'de> for SortDirection {
    fn deserialize<D: serde::Deserializer<'de>>(d: D) -> Result<Self, D::Error> {
        let s = String::deserialize(d)?;
        match s.as_str() {
            "asc" => Ok(SortDirection::Asc),
            "desc" => Ok(SortDirection::Desc),
            _ => Err(serde::de::Error::unknown_variant(&s, &["asc", "desc"])),
        }
    }
}

#[derive(Debug, PartialEq)]
struct SubmissionsQuery {
    column: Option<String>,
    direction: Option<SortDirection>,
    keyword: Option<String>,
}

struct SubmissionsQueryVisitor;

impl<'de> serde::de::Visitor<'de> for SubmissionsQueryVisitor {
    type Value = SubmissionsQuery;

    fn expecting(&self, f: &mut std::fmt::Formatter) -> std::fmt::Result {
        f.write_str("struct SubmissionsQuery")
    }

    fn visit_map<A: serde::de::MapAccess<'de>>(
        self,
        mut map: A,
    ) -> Result<SubmissionsQuery, A::Error> {
        let mut column: Option<String> = None;
        let mut direction: Option<SortDirection> = None;
        let mut keyword: Option<String> = None;
        while let Some(key) = map.next_key::<String>()? {
            match key.as_str() {
                "column" => {
                    column = map.next_value::<Option<String>>()?;
                }
                "direction" => {
                    direction = map.next_value::<Option<SortDirection>>()?;
                }
                "keyword" => {
                    keyword = map.next_value::<Option<String>>()?;
                }
                _ => {
                    map.next_value::<serde::de::IgnoredAny>()?;
                }
            }
        }
        Ok(SubmissionsQuery { column, direction, keyword })
    }
}

impl<'de> serde::Deserialize<'de> for SubmissionsQuery {
    fn deserialize<D: serde::Deserializer<'de>>(d: D) -> Result<Self, D::Error> {
        d.deserialize_map(SubmissionsQueryVisitor)
    }
}

#[derive(Debug, PartialEq)]
struct LimitOffsetQuery {
    limit: Option<u64>,
    offset: Option<u64>,
}

struct LimitOffsetQueryVisitor;

impl<'de> serde::de::Visitor<'de> for LimitOffsetQueryVisitor {
    type Value = LimitOffsetQuery;

    fn expecting(&self, f: &mut std::fmt::Formatter) -> std::fmt::Result {
        f.write_str("struct LimitOffsetQuery")
    }

    fn visit_map<A: serde::de::MapAccess<'de>>(
        self,
        mut map: A,
    ) -> Result<LimitOffsetQuery, A::Error> {
        let mut limit: Option<u64> = None;
        let mut offset: Option<u64> = None;
        while let Some(key) = map.next_key::<String>()? {
            match key.as_str() {
                "limit" => {
                    limit = map.next_value::<Option<u64>>()?;
                }
                "offset" => {
                    offset = map.next_value::<Option<u64>>()?;
                }
                _ => {
                    map.next_value::<serde::de::IgnoredAny>()?;
                }
            }
        }
        Ok(LimitOffsetQuery { limit, offset })
    }
}

impl<'de> serde::Deserialize<'de> for LimitOffsetQuery {
    fn deserialize<D: serde::Deserializer<'de>>(d: D) -> Result<Self, D::Error> {
        d.deserialize_map(LimitOffsetQueryVisitor)
    }
}

impl serde::Serialize for LimitOffsetQuery {
    fn serialize<S: serde::Serializer>(&self, s: S) -> Result<S::Ok, S::Error> {
        let mut st = s.serialize_struct("LimitOffsetQuery", 2)?;
        st.serialize_field("limit", &self.limit)?;
        st.serialize_field("offset", &self.offset)?;
        st.end()
    }
}

#[test]
fn no_params_simple_query_required() {
    let route = CompiledRoute::compile("/users").unwrap();
    let (_, query) = route.match_request("/users").unwrap();
    let q: Result<UserListQuery, _> = parse_required_query(&query);
    match q {
        Err(RouteParseErr::NoQueryString) => {}
        _ => assert!(false),
    }
}

#[test]
fn no_params_simple_query() {
    let route = CompiledRoute::compile("/users").unwrap();
    let (_, query) = route.match_request("/users?friends_only=true").unwrap();
    let q: UserListQuery = parse_required_query(&query).unwrap();
    assert_eq!(
        q,
        UserListQuery { limit: None, offset: None, keyword: None, friends_only: true }
    );
}

#[test]
fn no_params_simple_query_missing_bool_field() {
    let route = CompiledRoute::compile("/users").unwrap();
    let (_, query) = route.match_request("/users?").unwrap();
    let q: UserListQuery = parse_required_query(&query).unwrap();
    assert_eq!(
        q,
        UserListQuery { limit: None, offset: None, keyword: None, friends_only: false }
    );
}

#[test]
fn no_params_simple_query_invalid_type() {
    let route = CompiledRoute::compile("/users").unwrap();
    let (_, query) = route.match_request("/users?offset=test").unwrap();
    let q: Result<UserListQuery, _> = parse_required_query(&query);
    match q {
        Err(RouteParseErr::QueryParseErr(_)) => {}
        _ => assert!(false),
    }
}

#[test]
fn no_params_simple_query_all_defined() {
    let route = CompiledRoute::compile("/users").unwrap();
    let (_, query) = route
        .match_request("/users?offset=10&limit=20&friends_only=false&keyword=some_keyword")
        .unwrap();
    let q: UserListQuery = parse_required_query(&query).unwrap();
    assert_eq!(
        q,
        UserListQuery {
            limit: Some(20),
            offset: Some(10),
            keyword: Some("some_keyword".to_string()),
            friends_only: false,
        }
    );
}

#[test]
fn no_params_simple_query_url_decoding() {
    let route = CompiledRoute::compile("/users").unwrap();
    let (_, query) = route.match_request("/users?keyword=some%20keyword%20with%20ampersand-question-equals-stuff%26%3F%3d%3a%3b%40%23%25%5e%5b%5d%7b%7D%60%22%3c%3e%E6%97%A5%E6%9C%AC%E8%AA%9E").unwrap();
    let q: UserListQuery = parse_required_query(&query).unwrap();
    assert_eq!(
        q,
        UserListQuery {
            limit: None,
            offset: None,
            keyword: Some(
                "some keyword with ampersand-question-equals-stuff&?=:;@#%^[]{}`\"<>日本語"
                    .to_string()
            ),
            friends_only: false,
        }
    );
}

#[test]
fn one_param_optional_query_missing() {
    let route = CompiledRoute::compile("/users/:user_id").unwrap();
    let (caps, query) = route.match_request("/users/8").unwrap();
    assert_eq!(parse_u8_param(&caps[0].1).unwrap(), 8);
    let q: Option<UserListQuery> = parse_optional_query(&query);
    assert_eq!(q, None);
}

#[test]
fn one_param_optional_query_present() {
    let route = CompiledRoute::compile("/users/:user_id").unwrap();
    let (caps, query) = route.match_request("/users/8?limit=55").unwrap();
    assert_eq!(parse_u8_param(&caps[0].1).unwrap(), 8);
    let q: Option<UserListQuery> = parse_optional_query(&query);
    assert_eq!(
        q,
        Some(UserListQuery { limit: Some(55), offset: None, keyword: None, friends_only: false })
    );
}

#[test]
fn nested_query_1() {
    let route = CompiledRoute::compile("/users/:user_id").unwrap();
    let (caps, query) = route.match_request("/users/1024?address[apt_number]=101").unwrap();
    assert_eq!(parse_u32_param(&caps[0].1).unwrap(), 1024);
    let q: Option<ParentQuery> = parse_optional_query(&query);
    assert_eq!(
        q,
        Some(ParentQuery {
            address: Some(Address {
                street_name: None,
                apt_number: Some(101),
                country: None,
                building: None,
            })
        })
    );
}

#[test]
fn nested_query_2() {
    let route = CompiledRoute::compile("/users/:user_id").unwrap();
    let (caps, query) = route
        .match_request("/users/1024?address[apt_number]=101&address[country]=country_b")
        .unwrap();
    assert_eq!(parse_u32_param(&caps[0].1).unwrap(), 1024);
    let q: Option<ParentQuery> = parse_optional_query(&query);
    assert_eq!(
        q,
        Some(ParentQuery {
            address: Some(Address {
                street_name: None,
                apt_number: Some(101),
                country: Some(Country::CountryB),
                building: None,
            })
        })
    );
}

#[test]
fn nested_query_3() {
    let route = CompiledRoute::compile("/users/:user_id").unwrap();
    let (caps, query) = route.match_request("/users/1024?address[apt_number]=101&address[country]=country_b&address[building][name]=Cool%20Building").unwrap();
    assert_eq!(parse_u32_param(&caps[0].1).unwrap(), 1024);
    let q: Option<ParentQuery> = parse_optional_query(&query);
    assert_eq!(
        q,
        Some(ParentQuery {
            address: Some(Address {
                street_name: None,
                apt_number: Some(101),
                country: Some(Country::CountryB),
                building: Some(Building { name: "Cool Building".to_string(), number: None })
            })
        })
    );
}

#[test]
fn nested_query_4() {
    let route = CompiledRoute::compile("/users/:user_id").unwrap();
    let (caps, query) = route.match_request("/users/1024?address[apt_number]=101&address[country]=country_b&address[building][name]=Cool%20Building&address[building][number]=not_number").unwrap();
    assert_eq!(parse_u32_param(&caps[0].1).unwrap(), 1024);
    let q: Option<ParentQuery> = parse_optional_query(&query);
    assert_eq!(q, None);
}

#[test]
fn nested_query_5() {
    let route = CompiledRoute::compile("/users/:user_id").unwrap();
    let (caps, query) = route.match_request("/users/1024?address[apt_number]=101&address[country]=country_b&address[building][name]=Cool%20Building&address[building][number]=9000").unwrap();
    assert_eq!(parse_u32_param(&caps[0].1).unwrap(), 1024);
    let q: Option<ParentQuery> = parse_optional_query(&query);
    assert_eq!(
        q,
        Some(ParentQuery {
            address: Some(Address {
                street_name: None,
                apt_number: Some(101),
                country: Some(Country::CountryB),
                building: Some(Building { name: "Cool Building".to_string(), number: Some(9000) })
            })
        })
    );
}

#[test]
fn vec_query_1() {
    let route = CompiledRoute::compile("/users/:user_id").unwrap();
    let (caps, query) = route.match_request("/users/1024?").unwrap();
    assert_eq!(parse_u32_param(&caps[0].1).unwrap(), 1024);
    let q: Option<VecQuery> = parse_optional_query(&query);
    assert_eq!(q, None);
}

#[test]
fn vec_query_2() {
    let route = CompiledRoute::compile("/users/:user_id").unwrap();
    let (caps, query) = route.match_request("/users/1024?friend_ids").unwrap();
    assert_eq!(parse_u32_param(&caps[0].1).unwrap(), 1024);
    let q: Option<VecQuery> = parse_optional_query(&query);
    assert_eq!(q, None);
}

#[test]
fn vec_query_3() {
    let route = CompiledRoute::compile("/users/:user_id").unwrap();
    let (caps, query) = route.match_request("/users/1024?friend_ids[]=1").unwrap();
    assert_eq!(parse_u32_param(&caps[0].1).unwrap(), 1024);
    let q: Option<VecQuery> = parse_optional_query(&query);
    assert_eq!(q, Some(VecQuery { friend_ids: vec![1] }));
}

#[test]
fn vec_query_4() {
    let route = CompiledRoute::compile("/users/:user_id").unwrap();
    let (caps, query) = route.match_request("/users/1024?friend_ids[]=1&friend_ids[]=20").unwrap();
    assert_eq!(parse_u32_param(&caps[0].1).unwrap(), 1024);
    let q: Option<VecQuery> = parse_optional_query(&query);
    assert_eq!(q, Some(VecQuery { friend_ids: vec![1, 20] }));
}

#[test]
fn vec_query_5() {
    let route = CompiledRoute::compile("/users/:user_id").unwrap();
    let (caps, query) = route
        .match_request("/users/1024?friend_ids[]=1&friend_ids[]=20&friend_ids=33")
        .unwrap();
    assert_eq!(parse_u32_param(&caps[0].1).unwrap(), 1024);
    let q: Option<VecQuery> = parse_optional_query(&query);
    assert_eq!(q, None);
}

#[test]
fn vec_query_6() {
    let route = CompiledRoute::compile("/users/:user_id").unwrap();
    let (caps, query) = route
        .match_request("/users/1024?friend_ids[0]=1&friend_ids[1]=20&friend_ids[2]=33")
        .unwrap();
    assert_eq!(parse_u32_param(&caps[0].1).unwrap(), 1024);
    let q: Option<VecQuery> = parse_optional_query(&query);
    assert_eq!(q, Some(VecQuery { friend_ids: vec![1, 20, 33] }));
}

#[test]
fn vec_query_7() {
    let route = CompiledRoute::compile("/users/:user_id").unwrap();
    let (caps, query) = route
        .match_request("/users/1024?friend_ids[1]=20&friend_ids[2]=33&friend_ids[0]=1")
        .unwrap();
    assert_eq!(parse_u32_param(&caps[0].1).unwrap(), 1024);
    let q: Option<VecQuery> = parse_optional_query(&query);
    assert_eq!(q, Some(VecQuery { friend_ids: vec![1, 20, 33] }));
}

#[test]
fn vec_query_mixed_forms_required_fails() {
    let route = CompiledRoute::compile("/users/:user_id").unwrap();
    let (_, query) = route
        .match_request("/users/1024?friend_ids[]=1&friend_ids[]=20&friend_ids=33")
        .unwrap();
    let q: Result<VecQuery, _> = parse_required_query(&query);
    match q {
        Err(RouteParseErr::QueryParseErr(_)) => {}
        _ => assert!(false),
    }
}

#[test]
fn encode_query_fields_in_declaration_order() {
    let q = LimitOffsetQuery { limit: Some(20), offset: Some(10) };
    let frag = app_route::query::encode_required_query(&q);
    assert_eq!(frag, Some("limit=20&offset=10".to_string()));
    let absent: Option<LimitOffsetQuery> = None;
    assert_eq!(app_route::query::encode_optional_query(&absent), None);
    let present = Some(LimitOffsetQuery { limit: Some(5), offset: None });
    assert_eq!(
        app_route::query::encode_optional_query(&present),
        Some("limit=5".to_string())
    );
}

#[test]
fn test_no_query() {
    let route = CompiledRoute::compile("/p/:project_id/exams/:exam_id/submissions_expired").unwrap();
    let (caps, query) = route.match_request("/p/43/exams/10/submissions_expired").unwrap();
    assert_eq!(parse_string_param(&caps[0].1), "43");
    assert_eq!(parse_u64_param(&caps[1].1).unwrap(), 10);
    let q: Option<SubmissionsQuery> = parse_optional_query(&query);
    let limit: Option<LimitOffsetQuery> = parse_optional_query(&query);
    assert_eq!(q, None);
    assert_eq!(limit, None);
}

#[test]
fn test_only_question_mark() {
    let route = CompiledRoute::compile("/p/:project_id/exams/:exam_id/submissions_expired").unwrap();
    let (caps, query) = route.match_request("/p/43/exams/10/submissions_expired?").unwrap();
    assert_eq!(parse_string_param(&caps[0].1), "43");
    assert_eq!(parse_u64_param(&caps[1].1).unwrap(), 10);
    let q: Option<SubmissionsQuery> = parse_optional_query(&query);
    let limit: Option<LimitOffsetQuery> = parse_optional_query(&query);
    assert_eq!(q, Some(SubmissionsQuery { column: None, direction: None, keyword: None }));
    assert_eq!(limit, Some(LimitOffsetQuery { limit: None, offset: None }));
}
