use test_wundergraph::loader::{Attached, Condition, LoadError, PolicyRule, Store};
use test_wundergraph::mutation::{insert, update, MutationError};
use test_wundergraph::registry::{ConfigError, EntityDecl, FieldDecl, RelKind, RelationDecl, Registry, ScalarType};
use test_wundergraph::request::{run_query, QueryError, Response};
use test_wundergraph::response::{Member, Obj, Out};
use test_wundergraph::schema::{
    ColormapChangeset, NewColormap, COLORMAPS,
    movie_registry, movie_schema, CinemaChangeset, CinemasMovieChangeset, MovieChangeset, NewMovie, NewVectorData, NewVectorStyle, Episode, NewCinema, NewMoviesTag, NewTag, NewVectorMovie, TagsValueChangeset,
    VectorMovieChangeset, CINEMAS, CINEMAS_MOVIES, MOVIES, MOVIES_TAGS, TAGS, VECTOR_MOVIES, VECTOR_STYLES,
};
use test_wundergraph::selection::{FieldRequest, SelectionError};
use test_wundergraph::value::{duplicate_row, Value};

fn text(s: &str) -> Value {
    Value::Text(s.to_string())
}

fn field(parent: Option<usize>, name: &str) -> FieldRequest {
    FieldRequest { parent, name: name.to_string(), limit: None, offset: None }
}

fn registry() -> Registry {
    Registry::build(movie_schema()).unwrap()
}

fn key_is(id: i64) -> Vec<Condition> {
    vec![Condition { column: 0, value: Value::Int(id), equal: true }]
}

fn movie(identifier: &str) -> Vec<Value> {
    vec![text(identifier), text("a movie"), Value::Null, Value::Null]
}

/// One cinema (key 1); movies "m1" (1), "banned" (2), "lonely" (3); two links of movie 1
/// and one of movie 2 to the cinema.
fn seeded(reg: &Registry) -> Store {
    let mut store = Store::new(reg);
    insert(reg, &mut store, CINEMAS, NewCinema { name: "Odeon".to_string() }.into_payload()).unwrap();
    insert(reg, &mut store, MOVIES, movie("m1")).unwrap();
    insert(reg, &mut store, MOVIES, movie("banned")).unwrap();
    insert(reg, &mut store, MOVIES, movie("lonely")).unwrap();
    for m in [1i64, 1, 2] {
        insert(reg, &mut store, CINEMAS_MOVIES, vec![Value::Null, Value::Int(1), Value::Int(m)]).unwrap();
    }
    store
}

fn query(
    reg: &Registry,
    store: &Store,
    root: usize,
    req: Vec<FieldRequest>,
    conds: Vec<Condition>,
    policy: Vec<PolicyRule>,
) -> Result<Response, QueryError> {
    run_query(reg, store, root, &req, None, 0, &conds, &policy)
}

fn ok(r: Result<Response, QueryError>) -> Response {
    match r {
        Ok(resp) => resp,
        Err(e) => panic!("query failed: {:?}", e),
    }
}

fn entity(table: &str, fields: Vec<FieldDecl>, relations: Vec<RelationDecl>) -> EntityDecl {
    EntityDecl { table: table.to_string(), fields, relations }
}

fn col(name: &str, ty: ScalarType, nullable: bool) -> FieldDecl {
    FieldDecl { name: name.to_string(), ty, nullable }
}

fn rel(name: &str, kind: RelKind, target: &str, fk: &str) -> RelationDecl {
    RelationDecl { name: name.to_string(), kind, target: target.to_string(), fk_column: fk.to_string() }
}

#[test]
fn movie_schema_builds() {
    let reg = registry();
    assert_eq!(reg.entities.len(), 15);
    assert_eq!(reg.lookup(&"movies".to_string()), Some(MOVIES));
    assert_eq!(reg.lookup(&"nothing".to_string()), None);
    assert_eq!(reg.relation_named(MOVIES, &"cinemas_movies".to_string()), Some(0));
    assert_eq!(reg.field_named(MOVIES, &"identifier".to_string()), Some(1));
    let link = reg.links[CINEMAS_MOVIES][1];
    assert_eq!(link.target, MOVIES);
    assert_eq!(link.fk, 3);
}

#[test]
fn duplicate_table_is_a_config_error() {
    let decls = vec![
        entity("a", vec![col("id", ScalarType::Int, false)], vec![]),
        entity("a", vec![col("id", ScalarType::Int, false)], vec![]),
    ];
    assert_eq!(Registry::build(decls).err(), Some(ConfigError::DuplicateTable { first: 0, second: 1 }));
}

#[test]
fn bad_primary_key_is_a_config_error() {
    let decls = vec![entity("a", vec![col("id", ScalarType::Int, true)], vec![])];
    assert_eq!(Registry::build(decls).err(), Some(ConfigError::BadPrimaryKey { entity: 0 }));
    let decls = vec![entity("a", vec![], vec![])];
    assert_eq!(Registry::build(decls).err(), Some(ConfigError::BadPrimaryKey { entity: 0 }));
}

#[test]
fn duplicate_member_is_a_config_error() {
    let decls = vec![entity(
        "a",
        vec![col("id", ScalarType::Int, false), col("x", ScalarType::Text, false), col("x", ScalarType::Int, false)],
        vec![],
    )];
    assert_eq!(Registry::build(decls).err(), Some(ConfigError::DuplicateMember { entity: 0 }));
}

#[test]
fn unknown_target_is_a_config_error() {
    let decls = vec![entity(
        "a",
        vec![col("id", ScalarType::Int, false), col("b_id", ScalarType::Int, false)],
        vec![rel("b", RelKind::ToOne, "b", "b_id")],
    )];
    assert_eq!(Registry::build(decls).err(), Some(ConfigError::UnknownTarget { entity: 0, relation: 0 }));
}

#[test]
fn missing_inverse_column_is_a_config_error() {
    let decls = vec![
        entity("a", vec![col("id", ScalarType::Int, false)], vec![rel("bs", RelKind::ToMany, "b", "a_id")]),
        entity("b", vec![col("id", ScalarType::Int, false), col("a_id", ScalarType::Text, false)], vec![]),
    ];
    assert_eq!(Registry::build(decls).err(), Some(ConfigError::MissingForeignKey { entity: 0, relation: 0 }));
}

#[test]
fn unknown_field_is_rejected() {
    let reg = registry();
    let store = seeded(&reg);
    let r = query(&reg, &store, MOVIES, vec![field(None, "id"), field(None, "nope")], vec![], vec![]);
    assert_eq!(r.err(), Some(QueryError::Selection(SelectionError::FieldNotFound { node: 1 })));
}

#[test]
fn pagination_outside_to_many_is_rejected() {
    let reg = registry();
    let store = seeded(&reg);
    let mut f = field(None, "name");
    f.limit = Some(1);
    let r = query(&reg, &store, MOVIES, vec![f], vec![], vec![]);
    assert_eq!(r.err(), Some(QueryError::Selection(SelectionError::Argument { node: 0 })));
    let mut to_one = field(None, "movie_id");
    to_one.offset = Some(1);
    let r = query(&reg, &store, CINEMAS_MOVIES, vec![to_one], vec![], vec![]);
    assert_eq!(r.err(), Some(QueryError::Selection(SelectionError::Argument { node: 0 })));
}

#[test]
fn bad_parent_link_is_rejected() {
    let reg = registry();
    let store = seeded(&reg);
    let r = query(&reg, &store, MOVIES, vec![field(Some(0), "id")], vec![], vec![]);
    assert_eq!(r.err(), Some(QueryError::Selection(SelectionError::Argument { node: 0 })));
    let r = query(&reg, &store, MOVIES, vec![field(None, "name"), field(Some(0), "id")], vec![], vec![]);
    assert_eq!(r.err(), Some(QueryError::Selection(SelectionError::Argument { node: 1 })));
}

#[test]
fn movie_with_two_cinema_links_takes_two_steps() {
    let reg = registry();
    let store = seeded(&reg);
    let req = vec![field(None, "id"), field(None, "cinemas_movies"), field(Some(1), "id")];
    let resp = ok(query(&reg, &store, MOVIES, req, key_is(1), vec![]));
    assert_eq!(resp.plan.steps.len(), 2);
    assert_eq!(resp.steps.len(), 2);
    assert_eq!(resp.steps[0].rows.len(), 1);
    assert_eq!(resp.steps[0].rows[0][0], Value::Int(1));
    assert_eq!(resp.steps[1].links.len(), 1);
    match &resp.steps[1].links[0] {
        Attached::Many(ix) => {
            assert_eq!(ix.len(), 2);
            for &i in ix {
                assert_eq!(resp.steps[1].rows[i][3], Value::Int(1));
            }
        },
        other => panic!("expected a list, got {:?}", other),
    }
}

#[test]
fn step_count_follows_positions_not_rows() {
    let reg = registry();
    let store = seeded(&reg);
    // cinemas_movies appears twice under the root: one position; cinema_id under it: another.
    let req = vec![
        field(None, "identifier"),
        field(None, "cinemas_movies"),
        field(Some(1), "id"),
        field(None, "cinemas_movies"),
        field(Some(3), "cinema_id"),
        field(Some(4), "name"),
        field(None, "movies_tags"),
    ];
    let resp = ok(query(&reg, &store, MOVIES, req, vec![], vec![]));
    assert_eq!(resp.plan.steps.len(), 4);
    assert_eq!(resp.plan.step_of, vec![0, 1, 1, 1, 2, 2, 3]);
    assert_eq!(resp.steps[0].rows.len(), 3);
    assert_eq!(resp.steps[1].rows.len(), 3);
    assert_eq!(resp.steps[2].rows.len(), 1);
    assert_eq!(resp.steps[2].rows[0][1], text("Odeon"));
}

#[test]
fn policy_filters_root_listing_only() {
    let reg = registry();
    let store = seeded(&reg);
    let policy = || vec![PolicyRule::Filter { entity: MOVIES, condition: Condition { column: 1, value: text("banned"), equal: false } }];
    let listing = ok(query(&reg, &store, MOVIES, vec![field(None, "identifier")], vec![], policy()));
    let names: Vec<&Value> = listing.steps[0].rows.iter().map(|r| &r[1]).collect();
    assert_eq!(names, vec![&text("m1"), &text("lonely")]);
    let req = vec![field(None, "id"), field(None, "movie_id"), field(Some(1), "identifier")];
    let through = ok(query(&reg, &store, CINEMAS_MOVIES, req, key_is(3), policy()));
    assert_eq!(through.steps[1].rows.len(), 1);
    assert_eq!(through.steps[1].rows[0][1], text("banned"));
    assert_eq!(through.steps[1].links[0], Attached::One(Some(0)));
}

#[test]
fn insert_then_query_returns_inserted_values() {
    let reg = registry();
    let mut store = seeded(&reg);
    let row = insert(&reg, &mut store, MOVIES, vec![text("new"), text("New one"), text("desc"), Value::Null]).unwrap();
    assert_eq!(row, vec![Value::Int(4), text("new"), text("New one"), text("desc"), Value::Null]);
    let req = vec![field(None, "identifier"), field(None, "name"), field(None, "description"), field(None, "path")];
    let resp = ok(query(&reg, &store, MOVIES, req, key_is(4), vec![]));
    assert_eq!(resp.steps[0].rows, vec![row]);
}

#[test]
fn to_many_without_children_is_empty_list() {
    let reg = registry();
    let store = seeded(&reg);
    let req = vec![field(None, "cinemas_movies"), field(Some(0), "id")];
    let resp = ok(query(&reg, &store, MOVIES, req, key_is(3), vec![]));
    assert_eq!(resp.steps[1].rows.len(), 0);
    assert_eq!(resp.steps[1].links, vec![Attached::Many(vec![])]);
}

#[test]
fn null_to_one_resolves_to_none_without_keys() {
    let reg = registry();
    let mut store = seeded(&reg);
    insert(&reg, &mut store, VECTOR_STYLES, vec![text("plain"), text("{}")]).unwrap();
    insert(&reg, &mut store, VECTOR_MOVIES, NewVectorMovie { default_style: None }.into_payload()).unwrap();
    let req = vec![field(None, "id"), field(None, "default_style"), field(Some(1), "name")];
    let resp = ok(query(&reg, &store, VECTOR_MOVIES, req, vec![], vec![]));
    assert_eq!(resp.plan.steps.len(), 2);
    assert_eq!(resp.steps[1].rows.len(), 0);
    assert_eq!(resp.steps[1].links, vec![Attached::One(None)]);
}

#[test]
fn to_many_pagination_is_request_level() {
    let reg = registry();
    let store = seeded(&reg);
    let mut many = field(None, "cinemas_movies");
    many.limit = Some(2);
    many.offset = Some(1);
    let req = vec![field(None, "id"), many, field(Some(1), "id")];
    let resp = ok(query(&reg, &store, MOVIES, req, vec![], vec![]));
    // three links in storage order (keys 1, 2, 3); one skipped, two kept
    let keys: Vec<&Value> = resp.steps[1].rows.iter().map(|r| &r[0]).collect();
    assert_eq!(keys, vec![&Value::Int(2), &Value::Int(3)]);
    assert_eq!(resp.steps[1].links[0], Attached::Many(vec![0]));
    assert_eq!(resp.steps[1].links[1], Attached::Many(vec![1]));
    assert_eq!(resp.steps[1].links[2], Attached::Many(vec![]));
}

#[test]
fn root_pagination_applies_to_listing() {
    let reg = registry();
    let store = seeded(&reg);
    let req = vec![field(None, "id")];
    let resp = ok(run_query(&reg, &store, MOVIES, &req, Some(1), 2, &vec![], &vec![]));
    assert_eq!(resp.steps[0].rows.len(), 1);
    assert_eq!(resp.steps[0].rows[0][0], Value::Int(3));
}

#[test]
fn null_in_required_column_is_a_load_error() {
    let reg = registry();
    let mut store = seeded(&reg);
    store.tables[MOVIES].rows.push(vec![Value::Int(9), Value::Null, text("x"), Value::Null, Value::Null]);
    let r = query(&reg, &store, MOVIES, vec![field(None, "id")], vec![], vec![]);
    assert_eq!(r.err(), Some(QueryError::Load(LoadError::DataLoad { step: 0, row: 3 })));
}

#[test]
fn update_replaces_every_field() {
    let reg = registry();
    let mut store = seeded(&reg);
    let row = update(&reg, &mut store, CINEMAS, CinemaChangeset { id: 1, name: "Rex".to_string() }.into_payload()).unwrap();
    assert_eq!(row, vec![Value::Int(1), text("Rex")]);
    assert_eq!(store.tables[CINEMAS].rows, vec![vec![Value::Int(1), text("Rex")]]);
    let row = update(&reg, &mut store, MOVIES, vec![Value::Int(2), text("b2"), text("B"), text("d"), text("/p")]).unwrap();
    assert_eq!(store.tables[MOVIES].rows[1], row);
}

#[test]
fn update_with_missing_field_writes_nothing() {
    let reg = registry();
    let mut store = seeded(&reg);
    let before: Vec<Vec<Value>> = store.tables[MOVIES].rows.iter().map(|r| duplicate_row(r)).collect();
    let r = update(&reg, &mut store, MOVIES, vec![Value::Int(1), text("x"), text("y")]);
    assert_eq!(r, Err(MutationError::MissingField { column: 3 }));
    assert_eq!(store.tables[MOVIES].rows, before);
    let r = insert(&reg, &mut store, MOVIES, vec![text("x")]);
    assert_eq!(r, Err(MutationError::MissingField { column: 2 }));
    assert_eq!(store.tables[MOVIES].rows, before);
    assert_eq!(store.tables[MOVIES].next_id, 4);
}

#[test]
fn update_of_unknown_key_is_not_found() {
    let reg = registry();
    let mut store = seeded(&reg);
    let r = update(&reg, &mut store, CINEMAS, vec![Value::Int(99), text("x")]);
    assert_eq!(r, Err(MutationError::NotFound));
}

#[test]
fn mutation_value_errors() {
    let reg = registry();
    let mut store = seeded(&reg);
    assert_eq!(update(&reg, &mut store, CINEMAS, vec![Value::Int(1), Value::Int(5)]), Err(MutationError::InvalidValue { column: 1 }));
    assert_eq!(update(&reg, &mut store, CINEMAS, vec![Value::Int(1), text("a"), text("b")]), Err(MutationError::UnexpectedField));
    assert_eq!(insert(&reg, &mut store, CINEMAS, vec![Value::Null]), Err(MutationError::InvalidValue { column: 1 }));
    assert_eq!(insert(&reg, &mut store, CINEMAS, vec![text("a"), text("b")]), Err(MutationError::UnexpectedField));
}

#[test]
fn dangling_foreign_key_is_a_referential_error() {
    let reg = registry();
    let mut store = seeded(&reg);
    let r = insert(&reg, &mut store, CINEMAS_MOVIES, vec![Value::Null, Value::Int(1), Value::Int(42)]);
    assert_eq!(r, Err(MutationError::ReferentialIntegrity { relation: 1 }));
    let r = insert(&reg, &mut store, MOVIES_TAGS, NewMoviesTag { movie_id: 1, tag_id: 7 }.into_payload());
    assert_eq!(r, Err(MutationError::ReferentialIntegrity { relation: 1 }));
    let tag = insert(&reg, &mut store, TAGS, NewTag { name: "drama".to_string() }.into_payload()).unwrap();
    assert_eq!(tag, vec![Value::Int(1), text("drama")]);
    let link = insert(&reg, &mut store, MOVIES_TAGS, NewMoviesTag { movie_id: 1, tag_id: 1 }.into_payload()).unwrap();
    assert_eq!(link, vec![Value::Int(1), Value::Int(1), Value::Int(1)]);
}

#[test]
fn exhausted_keys_refuse_insert() {
    let reg = registry();
    let mut store = seeded(&reg);
    store.tables[CINEMAS].next_id = i64::MAX;
    let r = insert(&reg, &mut store, CINEMAS, vec![text("x")]);
    assert_eq!(r, Err(MutationError::KeysExhausted));
    assert_eq!(store.tables[CINEMAS].rows.len(), 1);
}

#[test]
fn episode_round_trips_through_small_int() {
    assert_eq!(Episode::NEWHOPE.to_sql(), 1);
    assert_eq!(Episode::EMPIRE.to_sql(), 2);
    assert_eq!(Episode::JEDI.to_sql(), 3);
    assert_eq!(Episode::from_sql(2), Some(Episode::EMPIRE));
    assert_eq!(Episode::from_sql(3), Some(Episode::JEDI));
    assert_eq!(Episode::from_sql(0), None);
    assert_eq!(Episode::from_sql(4), None);
}

#[test]
fn payloads_follow_column_order() {
    assert_eq!(NewCinema { name: "Odeon".to_string() }.into_payload(), vec![text("Odeon")]);
    assert_eq!(
        TagsValueChangeset { id: 4, value: "red".to_string(), tag_id: 2 }.into_payload(),
        vec![Value::Int(4), text("red"), Value::Int(2)]
    );
    assert_eq!(VectorMovieChangeset { id: 3, default_style: None }.into_payload(), vec![Value::Int(3), Value::Null]);
    assert_eq!(VectorMovieChangeset { id: 3, default_style: Some(8) }.into_payload(), vec![Value::Int(3), Value::Int(8)]);
}

fn member(name: &str, value: Out) -> Member {
    Member { name: name.to_string(), value }
}

#[test]
fn movie_with_two_cinema_links_renders_nested_list() {
    let reg = registry();
    let store = seeded(&reg);
    let req = vec![field(None, "id"), field(None, "cinemas_movies"), field(Some(1), "id")];
    let resp = ok(query(&reg, &store, MOVIES, req, key_is(1), vec![]));
    let expected = vec![Obj {
        members: vec![
            member("id", Out::Scalar(Value::Int(1))),
            member(
                "cinemas_movies",
                Out::Many(vec![
                    Obj { members: vec![member("id", Out::Scalar(Value::Int(1)))] },
                    Obj { members: vec![member("id", Out::Scalar(Value::Int(2)))] },
                ]),
            ),
        ],
    }];
    assert_eq!(resp.data, expected);
}

#[test]
fn empty_to_many_renders_empty_list() {
    let reg = registry();
    let store = seeded(&reg);
    let req = vec![field(None, "cinemas_movies"), field(Some(0), "id")];
    let resp = ok(query(&reg, &store, MOVIES, req, key_is(3), vec![]));
    assert_eq!(resp.data, vec![Obj { members: vec![member("cinemas_movies", Out::Many(vec![]))] }]);
}

#[test]
fn null_to_one_renders_null_and_present_one_renders_object() {
    let reg = registry();
    let mut store = seeded(&reg);
    insert(&reg, &mut store, VECTOR_STYLES, vec![text("plain"), text("{}")]).unwrap();
    insert(&reg, &mut store, VECTOR_MOVIES, NewVectorMovie { default_style: None }.into_payload()).unwrap();
    insert(&reg, &mut store, VECTOR_MOVIES, NewVectorMovie { default_style: Some(1) }.into_payload()).unwrap();
    let req = vec![field(None, "default_style"), field(Some(0), "name")];
    let resp = ok(query(&reg, &store, VECTOR_MOVIES, req, vec![], vec![]));
    assert_eq!(resp.plan.steps.len(), 2);
    assert_eq!(resp.steps[1].rows.len(), 1);
    let styled = Obj { members: vec![member("name", Out::Scalar(text("plain")))] };
    assert_eq!(
        resp.data,
        vec![
            Obj { members: vec![member("default_style", Out::One(None))] },
            Obj { members: vec![member("default_style", Out::One(Some(Box::new(styled))))] },
        ]
    );
}

#[test]
fn denied_root_listing_is_refused_but_relations_still_load() {
    let reg = registry();
    let store = seeded(&reg);
    let policy = || vec![PolicyRule::Deny { entity: MOVIES }];
    let r = query(&reg, &store, MOVIES, vec![field(None, "id")], vec![], policy());
    assert_eq!(r.err(), Some(QueryError::Denied));
    let req = vec![field(None, "movie_id"), field(Some(0), "identifier")];
    let resp = ok(query(&reg, &store, CINEMAS_MOVIES, req, key_is(1), policy()));
    let movie = Obj { members: vec![member("identifier", Out::Scalar(text("m1")))] };
    assert_eq!(resp.data, vec![Obj { members: vec![member("movie_id", Out::One(Some(Box::new(movie))))] }]);
    // a malformed request is reported before the rule is consulted
    let r = query(&reg, &store, MOVIES, vec![field(None, "nope")], vec![], policy());
    assert_eq!(r.err(), Some(QueryError::Selection(SelectionError::FieldNotFound { node: 0 })));
}

#[test]
fn movie_registry_matches_built_schema() {
    let reg = movie_registry();
    assert_eq!(reg.entities.len(), 15);
    assert_eq!(reg.entities[MOVIES].table, "movies");
    assert_eq!(reg.links[MOVIES][0].target, CINEMAS_MOVIES);
    assert_eq!(reg.links[MOVIES][0].fk, 3);
}

#[test]
fn float_free_payloads_follow_column_order() {
    let movie = NewMovie { identifier: "m".to_string(), name: "M".to_string(), description: None, path: Some("/p".to_string()) };
    assert_eq!(movie.into_payload(), vec![text("m"), text("M"), Value::Null, text("/p")]);
    let change = MovieChangeset { id: 2, identifier: "m".to_string(), name: "M".to_string(), description: Some("d".to_string()), path: None };
    assert_eq!(change.into_payload(), vec![Value::Int(2), text("m"), text("M"), text("d"), Value::Null]);
    let link = CinemasMovieChangeset { id: 5, exposed_format: Some(3), cinema_id: 1, movie_id: 2 };
    assert_eq!(link.into_payload(), vec![Value::Int(5), Value::Int(3), Value::Int(1), Value::Int(2)]);
    let data = NewVectorData { time: 1_600_000_000, properties: Some("{}".to_string()), vector_movie_id: 4 };
    assert_eq!(data.into_payload(), vec![Value::Int(1_600_000_000), text("{}"), Value::Int(4)]);
    let style = NewVectorStyle { name: "s".to_string(), style: "{\"k\":1}".to_string() };
    assert_eq!(style.into_payload(), vec![text("s"), text("{\"k\":1}")]);
}

#[test]
fn movie_update_through_typed_changeset_replaces_row() {
    let reg = registry();
    let mut store = seeded(&reg);
    let change = MovieChangeset { id: 3, identifier: "l2".to_string(), name: "L".to_string(), description: None, path: Some("/x".to_string()) };
    let row = update(&reg, &mut store, MOVIES, change.into_payload()).unwrap();
    assert_eq!(row, vec![Value::Int(3), text("l2"), text("L"), Value::Null, text("/x")]);
    assert_eq!(store.tables[MOVIES].rows[2], row);
    assert_eq!(store.tables[MOVIES].rows[0][1], text("m1"));
}

#[test]
fn repeated_to_many_keeps_first_pagination() {
    let reg = registry();
    let store = seeded(&reg);
    let mut first = field(None, "cinemas_movies");
    first.limit = Some(1);
    let mut second = field(None, "cinemas_movies");
    second.limit = Some(5);
    let req = vec![first, field(Some(0), "id"), second, field(Some(2), "id")];
    let resp = ok(query(&reg, &store, MOVIES, req, key_is(1), vec![]));
    assert_eq!(resp.plan.steps.len(), 2);
    assert_eq!(resp.plan.steps[1].limit, Some(1));
    assert_eq!(resp.steps[1].rows.len(), 1);
}

#[test]
fn colormap_colors_round_trip() {
    let reg = registry();
    let mut store = Store::new(&reg);
    let colors = "[\"red\",\"blue\"]".to_string();
    let row = insert(&reg, &mut store, COLORMAPS, NewColormap { name: "warm".to_string(), colors: colors.clone() }.into_payload()).unwrap();
    assert_eq!(row, vec![Value::Int(1), text("warm"), Value::Text(colors.clone())]);
    let resp = ok(query(&reg, &store, COLORMAPS, vec![field(None, "colors")], key_is(1), vec![]));
    assert_eq!(resp.data, vec![Obj { members: vec![member("colors", Out::Scalar(Value::Text(colors)))] }]);
    let change = ColormapChangeset { id: 1, name: "cool".to_string(), colors: "[]".to_string() };
    let row = update(&reg, &mut store, COLORMAPS, change.into_payload()).unwrap();
    assert_eq!(row, vec![Value::Int(1), text("cool"), text("[]")]);
}
