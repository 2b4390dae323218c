use vstd::prelude::*;
use crate::registry::{
    decls_valid, entity_ok, fk_column_at, members_distinct, relation_ok, table_of, tables_distinct, EntityDecl,
    FieldDecl, Registry, RelKind, RelationDecl, ScalarType,
};
use crate::value::Value;

verus! {

/// Index of the `cinemas` entity in [`movie_schema`].
pub const CINEMAS: usize = 0;
/// Index of the `cinemas_movies` entity in [`movie_schema`].
pub const CINEMAS_MOVIES: usize = 1;
/// Index of the `color_movie_colormap` entity in [`movie_schema`].
pub const COLOR_MOVIE_COLORMAP: usize = 2;
/// Index of the `color_movies` entity in [`movie_schema`].
pub const COLOR_MOVIES: usize = 3;
/// Index of the `colormaps` entity in [`movie_schema`].
pub const COLORMAPS: usize = 4;
/// Index of the `images` entity in [`movie_schema`].
pub const IMAGES: usize = 5;
/// Index of the `images_tags_values` entity in [`movie_schema`].
pub const IMAGES_TAGS_VALUES: usize = 6;
/// Index of the `movies` entity in [`movie_schema`].
pub const MOVIES: usize = 7;
/// Index of the `movies_tags` entity in [`movie_schema`].
pub const MOVIES_TAGS: usize = 8;
/// Index of the `tags` entity in [`movie_schema`].
pub const TAGS: usize = 9;
/// Index of the `tags_values` entity in [`movie_schema`].
pub const TAGS_VALUES: usize = 10;
/// Index of the `vector_data` entity in [`movie_schema`].
pub const VECTOR_DATA: usize = 11;
/// Index of the `vector_movies` entity in [`movie_schema`].
pub const VECTOR_MOVIES: usize = 12;
/// Index of the `vector_styles` entity in [`movie_schema`].
pub const VECTOR_STYLES: usize = 13;
/// Index of the `vector_styles_vector_movies` entity in [`movie_schema`].
pub const VECTOR_STYLES_VECTOR_MOVIES: usize = 14;

fn column(name: &str, ty: ScalarType, nullable: bool) -> (r: FieldDecl)
    ensures
        column_is(r, (name@, ty, nullable)),
{
    FieldDecl { name: name.to_owned(), ty, nullable }
}

fn relation(name: &str, kind: RelKind, target: &str, fk_column: &str) -> (r: RelationDecl)
    ensures
        relation_is(r, (name@, kind, target@, fk_column@)),
{
    RelationDecl { name: name.to_owned(), kind, target: target.to_owned(), fk_column: fk_column.to_owned() }
}

pub open spec fn column_is(f: FieldDecl, c: (Seq<char>, ScalarType, bool)) -> bool {
    f.name@ == c.0 && f.ty == c.1 && f.nullable == c.2
}

pub open spec fn relation_is(r: RelationDecl, d: (Seq<char>, RelKind, Seq<char>, Seq<char>)) -> bool {
    r.name@ == d.0 && r.kind == d.1 && r.target@ == d.2 && r.fk_column@ == d.3
}

/// `e` declares table `table` with exactly the columns `cols` and relations `rels`, in order.
pub open spec fn declares(
    e: EntityDecl,
    table: Seq<char>,
    cols: Seq<(Seq<char>, ScalarType, bool)>,
    rels: Seq<(Seq<char>, RelKind, Seq<char>, Seq<char>)>,
) -> bool {
    &&& e.table@ == table
    &&& e.fields@.len() == cols.len()
    &&& forall|c: int| 0 <= c < cols.len() ==> column_is(#[trigger] e.fields@[c], cols[c])
    &&& e.relations@.len() == rels.len()
    &&& forall|k: int| 0 <= k < rels.len() ==> relation_is(#[trigger] e.relations@[k], rels[k])
}

/// The declaration of `cinemas`.
pub open spec fn cinemas_declared(e: EntityDecl) -> bool {
    declares(e, "cinemas"@, seq![("id"@, ScalarType::Int, false), ("name"@, ScalarType::Text, false)], seq![("cinemas_movies"@, RelKind::ToMany, "cinemas_movies"@, "cinema_id"@)])
}

fn cinemas_decl() -> (e: EntityDecl)
    ensures
        cinemas_declared(e),
{
    let mut fields: Vec<FieldDecl> = Vec::new();
    fields.push(column("id", ScalarType::Int, false));
    fields.push(column("name", ScalarType::Text, false));
    let mut relations: Vec<RelationDecl> = Vec::new();
    relations.push(relation("cinemas_movies", RelKind::ToMany, "cinemas_movies", "cinema_id"));
    EntityDecl { table: "cinemas".to_owned(), fields, relations }
}

/// The declaration of `cinemas_movies`.
pub open spec fn cinemas_movies_declared(e: EntityDecl) -> bool {
    declares(e, "cinemas_movies"@, seq![("id"@, ScalarType::Int, false), ("exposed_format"@, ScalarType::Int, true), ("cinema_id"@, ScalarType::Int, false), ("movie_id"@, ScalarType::Int, false)], seq![("cinema_id"@, RelKind::ToOne, "cinemas"@, "cinema_id"@), ("movie_id"@, RelKind::ToOne, "movies"@, "movie_id"@)])
}

fn cinemas_movies_decl() -> (e: EntityDecl)
    ensures
        cinemas_movies_declared(e),
{
    let mut fields: Vec<FieldDecl> = Vec::new();
    fields.push(column("id", ScalarType::Int, false));
    fields.push(column("exposed_format", ScalarType::Int, true));
    fields.push(column("cinema_id", ScalarType::Int, false));
    fields.push(column("movie_id", ScalarType::Int, false));
    let mut relations: Vec<RelationDecl> = Vec::new();
    relations.push(relation("cinema_id", RelKind::ToOne, "cinemas", "cinema_id"));
    relations.push(relation("movie_id", RelKind::ToOne, "movies", "movie_id"));
    EntityDecl { table: "cinemas_movies".to_owned(), fields, relations }
}

/// The declaration of `color_movie_colormap`.
pub open spec fn color_movie_colormap_declared(e: EntityDecl) -> bool {
    declares(e, "color_movie_colormap"@, seq![("id"@, ScalarType::Int, false), ("color_movie_id"@, ScalarType::Int, false), ("colormap_id"@, ScalarType::Int, false)], seq![("color_movie_id"@, RelKind::ToOne, "color_movies"@, "color_movie_id"@), ("colormap_id"@, RelKind::ToOne, "colormaps"@, "colormap_id"@)])
}

fn color_movie_colormap_decl() -> (e: EntityDecl)
    ensures
        color_movie_colormap_declared(e),
{
    let mut fields: Vec<FieldDecl> = Vec::new();
    fields.push(column("id", ScalarType::Int, false));
    fields.push(column("color_movie_id", ScalarType::Int, false));
    fields.push(column("colormap_id", ScalarType::Int, false));
    let mut relations: Vec<RelationDecl> = Vec::new();
    relations.push(relation("color_movie_id", RelKind::ToOne, "color_movies", "color_movie_id"));
    relations.push(relation("colormap_id", RelKind::ToOne, "colormaps", "colormap_id"));
    EntityDecl { table: "color_movie_colormap".to_owned(), fields, relations }
}

/// The declaration of `color_movies`.
pub open spec fn color_movies_declared(e: EntityDecl) -> bool {
    declares(e, "color_movies"@, seq![("id"@, ScalarType::Int, false), ("format"@, ScalarType::Int, false), ("default_colormap"@, ScalarType::Int, false)], seq![("default_colormap"@, RelKind::ToOne, "colormaps"@, "default_colormap"@), ("color_movie_colormap"@, RelKind::ToMany, "color_movie_colormap"@, "color_movie_id"@), ("images"@, RelKind::ToMany, "images"@, "color_movie_id"@)])
}

fn color_movies_decl() -> (e: EntityDecl)
    ensures
        color_movies_declared(e),
{
    let mut fields: Vec<FieldDecl> = Vec::new();
    fields.push(column("id", ScalarType::Int, false));
    fields.push(column("format", ScalarType::Int, false));
    fields.push(column("default_colormap", ScalarType::Int, false));
    let mut relations: Vec<RelationDecl> = Vec::new();
    relations.push(relation("default_colormap", RelKind::ToOne, "colormaps", "default_colormap"));
    relations.push(relation("color_movie_colormap", RelKind::ToMany, "color_movie_colormap", "color_movie_id"));
    relations.push(relation("images", RelKind::ToMany, "images", "color_movie_id"));
    EntityDecl { table: "color_movies".to_owned(), fields, relations }
}

/// The declaration of `colormaps`.
pub open spec fn colormaps_declared(e: EntityDecl) -> bool {
    declares(e, "colormaps"@, seq![("id"@, ScalarType::Int, false), ("name"@, ScalarType::Text, false), ("colors"@, ScalarType::Text, false)], seq![("color_movie_colormap"@, RelKind::ToMany, "color_movie_colormap"@, "colormap_id"@), ("color_movies"@, RelKind::ToMany, "color_movies"@, "default_colormap"@)])
}

fn colormaps_decl() -> (e: EntityDecl)
    ensures
        colormaps_declared(e),
{
    let mut fields: Vec<FieldDecl> = Vec::new();
    fields.push(column("id", ScalarType::Int, false));
    fields.push(column("name", ScalarType::Text, false));
    fields.push(column("colors", ScalarType::Text, false));
    let mut relations: Vec<RelationDecl> = Vec::new();
    relations.push(relation("color_movie_colormap", RelKind::ToMany, "color_movie_colormap", "colormap_id"));
    relations.push(relation("color_movies", RelKind::ToMany, "color_movies", "default_colormap"));
    EntityDecl { table: "colormaps".to_owned(), fields, relations }
}

/// The declaration of `images`.
pub open spec fn images_declared(e: EntityDecl) -> bool {
    declares(e, "images"@, seq![("id"@, ScalarType::Int, false), ("time"@, ScalarType::Int, false), ("path"@, ScalarType::Text, false), ("color_movie_id"@, ScalarType::Int, false)], seq![("color_movie_id"@, RelKind::ToOne, "color_movies"@, "color_movie_id"@), ("images_tags_values"@, RelKind::ToMany, "images_tags_values"@, "image_id"@)])
}

fn images_decl() -> (e: EntityDecl)
    ensures
        images_declared(e),
{
    let mut fields: Vec<FieldDecl> = Vec::new();
    fields.push(column("id", ScalarType::Int, false));
    fields.push(column("time", ScalarType::Int, false));
    fields.push(column("path", ScalarType::Text, false));
    fields.push(column("color_movie_id", ScalarType::Int, false));
    let mut relations: Vec<RelationDecl> = Vec::new();
    relations.push(relation("color_movie_id", RelKind::ToOne, "color_movies", "color_movie_id"));
    relations.push(relation("images_tags_values", RelKind::ToMany, "images_tags_values", "image_id"));
    EntityDecl { table: "images".to_owned(), fields, relations }
}

/// The declaration of `images_tags_values`.
pub open spec fn images_tags_values_declared(e: EntityDecl) -> bool {
    declares(e, "images_tags_values"@, seq![("id"@, ScalarType::Int, false), ("tags_value_id"@, ScalarType::Int, false), ("image_id"@, ScalarType::Int, false)], seq![("tags_value_id"@, RelKind::ToOne, "tags_values"@, "tags_value_id"@), ("image_id"@, RelKind::ToOne, "images"@, "image_id"@)])
}

fn images_tags_values_decl() -> (e: EntityDecl)
    ensures
        images_tags_values_declared(e),
{
    let mut fields: Vec<FieldDecl> = Vec::new();
    fields.push(column("id", ScalarType::Int, false));
    fields.push(column("tags_value_id", ScalarType::Int, false));
    fields.push(column("image_id", ScalarType::Int, false));
    let mut relations: Vec<RelationDecl> = Vec::new();
    relations.push(relation("tags_value_id", RelKind::ToOne, "tags_values", "tags_value_id"));
    relations.push(relation("image_id", RelKind::ToOne, "images", "image_id"));
    EntityDecl { table: "images_tags_values".to_owned(), fields, relations }
}

/// The declaration of `movies`.
pub open spec fn movies_declared(e: EntityDecl) -> bool {
    declares(e, "movies"@, seq![("id"@, ScalarType::Int, false), ("identifier"@, ScalarType::Text, false), ("name"@, ScalarType::Text, false), ("description"@, ScalarType::Text, true), ("path"@, ScalarType::Text, true)], seq![("cinemas_movies"@, RelKind::ToMany, "cinemas_movies"@, "movie_id"@), ("movies_tags"@, RelKind::ToMany, "movies_tags"@, "movie_id"@)])
}

fn movies_decl() -> (e: EntityDecl)
    ensures
        movies_declared(e),
{
    let mut fields: Vec<FieldDecl> = Vec::new();
    fields.push(column("id", ScalarType::Int, false));
    fields.push(column("identifier", ScalarType::Text, false));
    fields.push(column("name", ScalarType::Text, false));
    fields.push(column("description", ScalarType::Text, true));
    fields.push(column("path", ScalarType::Text, true));
    let mut relations: Vec<RelationDecl> = Vec::new();
    relations.push(relation("cinemas_movies", RelKind::ToMany, "cinemas_movies", "movie_id"));
    relations.push(relation("movies_tags", RelKind::ToMany, "movies_tags", "movie_id"));
    EntityDecl { table: "movies".to_owned(), fields, relations }
}

/// The declaration of `movies_tags`.
pub open spec fn movies_tags_declared(e: EntityDecl) -> bool {
    declares(e, "movies_tags"@, seq![("id"@, ScalarType::Int, false), ("movie_id"@, ScalarType::Int, false), ("tag_id"@, ScalarType::Int, false)], seq![("movie_id"@, RelKind::ToOne, "movies"@, "movie_id"@), ("tag_id"@, RelKind::ToOne, "tags"@, "tag_id"@)])
}

fn movies_tags_decl() -> (e: EntityDecl)
    ensures
        movies_tags_declared(e),
{
    let mut fields: Vec<FieldDecl> = Vec::new();
    fields.push(column("id", ScalarType::Int, false));
    fields.push(column("movie_id", ScalarType::Int, false));
    fields.push(column("tag_id", ScalarType::Int, false));
    let mut relations: Vec<RelationDecl> = Vec::new();
    relations.push(relation("movie_id", RelKind::ToOne, "movies", "movie_id"));
    relations.push(relation("tag_id", RelKind::ToOne, "tags", "tag_id"));
    EntityDecl { table: "movies_tags".to_owned(), fields, relations }
}

/// The declaration of `tags`.
pub open spec fn tags_declared(e: EntityDecl) -> bool {
    declares(e, "tags"@, seq![("id"@, ScalarType::Int, false), ("name"@, ScalarType::Text, false)], seq![("movies_tags"@, RelKind::ToMany, "movies_tags"@, "tag_id"@), ("tags_values"@, RelKind::ToMany, "tags_values"@, "tag_id"@)])
}

fn tags_decl() -> (e: EntityDecl)
    ensures
        tags_declared(e),
{
    let mut fields: Vec<FieldDecl> = Vec::new();
    fields.push(column("id", ScalarType::Int, false));
    fields.push(column("name", ScalarType::Text, false));
    let mut relations: Vec<RelationDecl> = Vec::new();
    relations.push(relation("movies_tags", RelKind::ToMany, "movies_tags", "tag_id"));
    relations.push(relation("tags_values", RelKind::ToMany, "tags_values", "tag_id"));
    EntityDecl { table: "tags".to_owned(), fields, relations }
}

/// The declaration of `tags_values`.
pub open spec fn tags_values_declared(e: EntityDecl) -> bool {
    declares(e, "tags_values"@, seq![("id"@, ScalarType::Int, false), ("value"@, ScalarType::Text, false), ("tag_id"@, ScalarType::Int, false)], seq![("tag_id"@, RelKind::ToOne, "tags"@, "tag_id"@), ("images_tags_values"@, RelKind::ToMany, "images_tags_values"@, "tags_value_id"@)])
}

fn tags_values_decl() -> (e: EntityDecl)
    ensures
        tags_values_declared(e),
{
    let mut fields: Vec<FieldDecl> = Vec::new();
    fields.push(column("id", ScalarType::Int, false));
    fields.push(column("value", ScalarType::Text, false));
    fields.push(column("tag_id", ScalarType::Int, false));
    let mut relations: Vec<RelationDecl> = Vec::new();
    relations.push(relation("tag_id", RelKind::ToOne, "tags", "tag_id"));
    relations.push(relation("images_tags_values", RelKind::ToMany, "images_tags_values", "tags_value_id"));
    EntityDecl { table: "tags_values".to_owned(), fields, relations }
}

/// The declaration of `vector_data`.
pub open spec fn vector_data_declared(e: EntityDecl) -> bool {
    declares(e, "vector_data"@, seq![("id"@, ScalarType::Int, false), ("time"@, ScalarType::Int, false), ("properties"@, ScalarType::Text, true), ("vector_movie_id"@, ScalarType::Int, false)], seq![("vector_movie_id"@, RelKind::ToOne, "vector_movies"@, "vector_movie_id"@)])
}

fn vector_data_decl() -> (e: EntityDecl)
    ensures
        vector_data_declared(e),
{
    let mut fields: Vec<FieldDecl> = Vec::new();
    fields.push(column("id", ScalarType::Int, false));
    fields.push(column("time", ScalarType::Int, false));
    fields.push(column("properties", ScalarType::Text, true));
    fields.push(column("vector_movie_id", ScalarType::Int, false));
    let mut relations: Vec<RelationDecl> = Vec::new();
    relations.push(relation("vector_movie_id", RelKind::ToOne, "vector_movies", "vector_movie_id"));
    EntityDecl { table: "vector_data".to_owned(), fields, relations }
}

/// The declaration of `vector_movies`.
pub open spec fn vector_movies_declared(e: EntityDecl) -> bool {
    declares(e, "vector_movies"@, seq![("id"@, ScalarType::Int, false), ("default_style"@, ScalarType::Int, true)], seq![("default_style"@, RelKind::ToOne, "vector_styles"@, "default_style"@), ("vector_data"@, RelKind::ToMany, "vector_data"@, "vector_movie_id"@), ("vector_styles_vector_movies"@, RelKind::ToMany, "vector_styles_vector_movies"@, "vector_movie_id"@)])
}

fn vector_movies_decl() -> (e: EntityDecl)
    ensures
        vector_movies_declared(e),
{
    let mut fields: Vec<FieldDecl> = Vec::new();
    fields.push(column("id", ScalarType::Int, false));
    fields.push(column("default_style", ScalarType::Int, true));
    let mut relations: Vec<RelationDecl> = Vec::new();
    relations.push(relation("default_style", RelKind::ToOne, "vector_styles", "default_style"));
    relations.push(relation("vector_data", RelKind::ToMany, "vector_data", "vector_movie_id"));
    relations.push(relation("vector_styles_vector_movies", RelKind::ToMany, "vector_styles_vector_movies", "vector_movie_id"));
    EntityDecl { table: "vector_movies".to_owned(), fields, relations }
}

/// The declaration of `vector_styles`.
pub open spec fn vector_styles_declared(e: EntityDecl) -> bool {
    declares(e, "vector_styles"@, seq![("id"@, ScalarType::Int, false), ("name"@, ScalarType::Text, false), ("style"@, ScalarType::Text, false)], seq![("vector_movies"@, RelKind::ToMany, "vector_movies"@, "default_style"@), ("vector_styles_vector_movies"@, RelKind::ToMany, "vector_styles_vector_movies"@, "vector_style_id"@)])
}

fn vector_styles_decl() -> (e: EntityDecl)
    ensures
        vector_styles_declared(e),
{
    let mut fields: Vec<FieldDecl> = Vec::new();
    fields.push(column("id", ScalarType::Int, false));
    fields.push(column("name", ScalarType::Text, false));
    fields.push(column("style", ScalarType::Text, false));
    let mut relations: Vec<RelationDecl> = Vec::new();
    relations.push(relation("vector_movies", RelKind::ToMany, "vector_movies", "default_style"));
    relations.push(relation("vector_styles_vector_movies", RelKind::ToMany, "vector_styles_vector_movies", "vector_style_id"));
    EntityDecl { table: "vector_styles".to_owned(), fields, relations }
}

/// The declaration of `vector_styles_vector_movies`.
pub open spec fn vector_styles_vector_movies_declared(e: EntityDecl) -> bool {
    declares(e, "vector_styles_vector_movies"@, seq![("id"@, ScalarType::Int, false), ("vector_movie_id"@, ScalarType::Int, false), ("vector_style_id"@, ScalarType::Int, false)], seq![("vector_movie_id"@, RelKind::ToOne, "vector_movies"@, "vector_movie_id"@), ("vector_style_id"@, RelKind::ToOne, "vector_styles"@, "vector_style_id"@)])
}

fn vector_styles_vector_movies_decl() -> (e: EntityDecl)
    ensures
        vector_styles_vector_movies_declared(e),
{
    let mut fields: Vec<FieldDecl> = Vec::new();
    fields.push(column("id", ScalarType::Int, false));
    fields.push(column("vector_movie_id", ScalarType::Int, false));
    fields.push(column("vector_style_id", ScalarType::Int, false));
    let mut relations: Vec<RelationDecl> = Vec::new();
    relations.push(relation("vector_movie_id", RelKind::ToOne, "vector_movies", "vector_movie_id"));
    relations.push(relation("vector_style_id", RelKind::ToOne, "vector_styles", "vector_style_id"));
    EntityDecl { table: "vector_styles_vector_movies".to_owned(), fields, relations }
}

/// The movie database, entity by entity in the order of the index constants above.
pub open spec fn movie_declared(r: Seq<EntityDecl>) -> bool {
    &&& r.len() == 15
    &&& cinemas_declared(r[CINEMAS as int])
    &&& cinemas_movies_declared(r[CINEMAS_MOVIES as int])
    &&& color_movie_colormap_declared(r[COLOR_MOVIE_COLORMAP as int])
    &&& color_movies_declared(r[COLOR_MOVIES as int])
    &&& colormaps_declared(r[COLORMAPS as int])
    &&& images_declared(r[IMAGES as int])
    &&& images_tags_values_declared(r[IMAGES_TAGS_VALUES as int])
    &&& movies_declared(r[MOVIES as int])
    &&& movies_tags_declared(r[MOVIES_TAGS as int])
    &&& tags_declared(r[TAGS as int])
    &&& tags_values_declared(r[TAGS_VALUES as int])
    &&& vector_data_declared(r[VECTOR_DATA as int])
    &&& vector_movies_declared(r[VECTOR_MOVIES as int])
    &&& vector_styles_declared(r[VECTOR_STYLES as int])
    &&& vector_styles_vector_movies_declared(r[VECTOR_STYLES_VECTOR_MOVIES as int])
}

/// The declarations of the movie database: each table with an integer key `id`, its columns
/// and its relations. A to-one relation bears the name of its foreign-key column. Timestamps
/// are stored as integer seconds; JSON documents, and the array of color names, as text.
/// Arrays of floating-point numbers are not part of the model.
pub fn movie_schema() -> (r: Vec<EntityDecl>)
    ensures
        movie_declared(r@),
        decls_valid(r@),
{
    let mut es: Vec<EntityDecl> = Vec::new();
    es.push(cinemas_decl());
    es.push(cinemas_movies_decl());
    es.push(color_movie_colormap_decl());
    es.push(color_movies_decl());
    es.push(colormaps_decl());
    es.push(images_decl());
    es.push(images_tags_values_decl());
    es.push(movies_decl());
    es.push(movies_tags_decl());
    es.push(tags_decl());
    es.push(tags_values_decl());
    es.push(vector_data_decl());
    es.push(vector_movies_decl());
    es.push(vector_styles_decl());
    es.push(vector_styles_vector_movies_decl());
    proof {
        lemma_movie_valid(es@);
    }
    es
}

proof fn lemma_movie_valid(r: Seq<EntityDecl>)
    requires
        movie_declared(r),
    ensures
        decls_valid(r),
{
    reveal_strlit("cinema_id");
    reveal_strlit("cinemas");
    reveal_strlit("cinemas_movies");
    reveal_strlit("color_movie_colormap");
    reveal_strlit("color_movie_id");
    reveal_strlit("color_movies");
    reveal_strlit("colormap_id");
    reveal_strlit("colormaps");
    reveal_strlit("colors");
    reveal_strlit("default_colormap");
    reveal_strlit("default_style");
    reveal_strlit("description");
    reveal_strlit("exposed_format");
    reveal_strlit("format");
    reveal_strlit("id");
    reveal_strlit("identifier");
    reveal_strlit("image_id");
    reveal_strlit("images");
    reveal_strlit("images_tags_values");
    reveal_strlit("movie_id");
    reveal_strlit("movies");
    reveal_strlit("movies_tags");
    reveal_strlit("name");
    reveal_strlit("path");
    reveal_strlit("properties");
    reveal_strlit("style");
    reveal_strlit("tag_id");
    reveal_strlit("tags");
    reveal_strlit("tags_value_id");
    reveal_strlit("tags_values");
    reveal_strlit("time");
    reveal_strlit("value");
    reveal_strlit("vector_data");
    reveal_strlit("vector_movie_id");
    reveal_strlit("vector_movies");
    reveal_strlit("vector_style_id");
    reveal_strlit("vector_styles");
    reveal_strlit("vector_styles_vector_movies");
    assert(cinemas_declared(r[0]));
    assert(cinemas_movies_declared(r[1]));
    assert(color_movie_colormap_declared(r[2]));
    assert(color_movies_declared(r[3]));
    assert(colormaps_declared(r[4]));
    assert(images_declared(r[5]));
    assert(images_tags_values_declared(r[6]));
    assert(movies_declared(r[7]));
    assert(movies_tags_declared(r[8]));
    assert(tags_declared(r[9]));
    assert(tags_values_declared(r[10]));
    assert(vector_data_declared(r[11]));
    assert(vector_movies_declared(r[12]));
    assert(vector_styles_declared(r[13]));
    assert(vector_styles_vector_movies_declared(r[14]));
    assert(r[0].table@ == "cinemas"@);
    assert(r[1].table@ == "cinemas_movies"@);
    assert(r[2].table@ == "color_movie_colormap"@);
    assert(r[3].table@ == "color_movies"@);
    assert(r[4].table@ == "colormaps"@);
    assert(r[5].table@ == "images"@);
    assert(r[6].table@ == "images_tags_values"@);
    assert(r[7].table@ == "movies"@);
    assert(r[8].table@ == "movies_tags"@);
    assert(r[9].table@ == "tags"@);
    assert(r[10].table@ == "tags_values"@);
    assert(r[11].table@ == "vector_data"@);
    assert(r[12].table@ == "vector_movies"@);
    assert(r[13].table@ == "vector_styles"@);
    assert(r[14].table@ == "vector_styles_vector_movies"@);
    assert("cinemas"@.len() != "cinemas_movies"@.len());
    assert("cinemas"@.len() != "color_movie_colormap"@.len());
    assert("cinemas"@.len() != "color_movies"@.len());
    assert("cinemas"@.len() != "colormaps"@.len());
    assert("cinemas"@.len() != "images"@.len());
    assert("cinemas"@.len() != "images_tags_values"@.len());
    assert("cinemas"@.len() != "movies"@.len());
    assert("cinemas"@.len() != "movies_tags"@.len());
    assert("cinemas"@.len() != "tags"@.len());
    assert("cinemas"@.len() != "tags_values"@.len());
    assert("cinemas"@.len() != "vector_data"@.len());
    assert("cinemas"@.len() != "vector_movies"@.len());
    assert("cinemas"@.len() != "vector_styles"@.len());
    assert("cinemas"@.len() != "vector_styles_vector_movies"@.len());
    assert("cinemas_movies"@.len() != "color_movie_colormap"@.len());
    assert("cinemas_movies"@.len() != "color_movies"@.len());
    assert("cinemas_movies"@.len() != "colormaps"@.len());
    assert("cinemas_movies"@.len() != "images"@.len());
    assert("cinemas_movies"@.len() != "images_tags_values"@.len());
    assert("cinemas_movies"@.len() != "movies"@.len());
    assert("cinemas_movies"@.len() != "movies_tags"@.len());
    assert("cinemas_movies"@.len() != "tags"@.len());
    assert("cinemas_movies"@.len() != "tags_values"@.len());
    assert("cinemas_movies"@.len() != "vector_data"@.len());
    assert("cinemas_movies"@.len() != "vector_movies"@.len());
    assert("cinemas_movies"@.len() != "vector_styles"@.len());
    assert("cinemas_movies"@.len() != "vector_styles_vector_movies"@.len());
    assert("color_movie_colormap"@.len() != "color_movies"@.len());
    assert("color_movie_colormap"@.len() != "colormaps"@.len());
    assert("color_movie_colormap"@.len() != "images"@.len());
    assert("color_movie_colormap"@.len() != "images_tags_values"@.len());
    assert("color_movie_colormap"@.len() != "movies"@.len());
    assert("color_movie_colormap"@.len() != "movies_tags"@.len());
    assert("color_movie_colormap"@.len() != "tags"@.len());
    assert("color_movie_colormap"@.len() != "tags_values"@.len());
    assert("color_movie_colormap"@.len() != "vector_data"@.len());
    assert("color_movie_colormap"@.len() != "vector_movies"@.len());
    assert("color_movie_colormap"@.len() != "vector_styles"@.len());
    assert("color_movie_colormap"@.len() != "vector_styles_vector_movies"@.len());
    assert("color_movies"@.len() != "colormaps"@.len());
    assert("color_movies"@.len() != "images"@.len());
    assert("color_movies"@.len() != "images_tags_values"@.len());
    assert("color_movies"@.len() != "movies"@.len());
    assert("color_movies"@.len() != "movies_tags"@.len());
    assert("color_movies"@.len() != "tags"@.len());
    assert("color_movies"@.len() != "tags_values"@.len());
    assert("color_movies"@.len() != "vector_data"@.len());
    assert("color_movies"@.len() != "vector_movies"@.len());
    assert("color_movies"@.len() != "vector_styles"@.len());
    assert("color_movies"@.len() != "vector_styles_vector_movies"@.len());
    assert("colormaps"@.len() != "images"@.len());
    assert("colormaps"@.len() != "images_tags_values"@.len());
    assert("colormaps"@.len() != "movies"@.len());
    assert("colormaps"@.len() != "movies_tags"@.len());
    assert("colormaps"@.len() != "tags"@.len());
    assert("colormaps"@.len() != "tags_values"@.len());
    assert("colormaps"@.len() != "vector_data"@.len());
    assert("colormaps"@.len() != "vector_movies"@.len());
    assert("colormaps"@.len() != "vector_styles"@.len());
    assert("colormaps"@.len() != "vector_styles_vector_movies"@.len());
    assert("images"@.len() != "images_tags_values"@.len());
    assert("images"@[0] != "movies"@[0]);
    assert("images"@.len() != "movies_tags"@.len());
    assert("images"@.len() != "tags"@.len());
    assert("images"@.len() != "tags_values"@.len());
    assert("images"@.len() != "vector_data"@.len());
    assert("images"@.len() != "vector_movies"@.len());
    assert("images"@.len() != "vector_styles"@.len());
    assert("images"@.len() != "vector_styles_vector_movies"@.len());
    assert("images_tags_values"@.len() != "movies"@.len());
    assert("images_tags_values"@.len() != "movies_tags"@.len());
    assert("images_tags_values"@.len() != "tags"@.len());
    assert("images_tags_values"@.len() != "tags_values"@.len());
    assert("images_tags_values"@.len() != "vector_data"@.len());
    assert("images_tags_values"@.len() != "vector_movies"@.len());
    assert("images_tags_values"@.len() != "vector_styles"@.len());
    assert("images_tags_values"@.len() != "vector_styles_vector_movies"@.len());
    assert("movies"@.len() != "movies_tags"@.len());
    assert("movies"@.len() != "tags"@.len());
    assert("movies"@.len() != "tags_values"@.len());
    assert("movies"@.len() != "vector_data"@.len());
    assert("movies"@.len() != "vector_movies"@.len());
    assert("movies"@.len() != "vector_styles"@.len());
    assert("movies"@.len() != "vector_styles_vector_movies"@.len());
    assert("movies_tags"@.len() != "tags"@.len());
    assert("movies_tags"@[0] != "tags_values"@[0]);
    assert("movies_tags"@[0] != "vector_data"@[0]);
    assert("movies_tags"@.len() != "vector_movies"@.len());
    assert("movies_tags"@.len() != "vector_styles"@.len());
    assert("movies_tags"@.len() != "vector_styles_vector_movies"@.len());
    assert("tags"@.len() != "tags_values"@.len());
    assert("tags"@.len() != "vector_data"@.len());
    assert("tags"@.len() != "vector_movies"@.len());
    assert("tags"@.len() != "vector_styles"@.len());
    assert("tags"@.len() != "vector_styles_vector_movies"@.len());
    assert("tags_values"@[0] != "vector_data"@[0]);
    assert("tags_values"@.len() != "vector_movies"@.len());
    assert("tags_values"@.len() != "vector_styles"@.len());
    assert("tags_values"@.len() != "vector_styles_vector_movies"@.len());
    assert("vector_data"@.len() != "vector_movies"@.len());
    assert("vector_data"@.len() != "vector_styles"@.len());
    assert("vector_data"@.len() != "vector_styles_vector_movies"@.len());
    assert("vector_movies"@[7] != "vector_styles"@[7]);
    assert("vector_movies"@.len() != "vector_styles_vector_movies"@.len());
    assert("vector_styles"@.len() != "vector_styles_vector_movies"@.len());
    assert(r[0].fields@[0].name@ == "id"@);
    assert(r[0].fields@[1].name@ == "name"@);
    assert("id"@.len() != "name"@.len());
    assert(r[0].relations@[0].name@ == "cinemas_movies"@);
    assert(r[1].fields@[0].name@ == "id"@);
    assert(r[1].fields@[1].name@ == "exposed_format"@);
    assert(r[1].fields@[2].name@ == "cinema_id"@);
    assert(r[1].fields@[3].name@ == "movie_id"@);
    assert("id"@.len() != "exposed_format"@.len());
    assert("id"@.len() != "cinema_id"@.len());
    assert("id"@.len() != "movie_id"@.len());
    assert("exposed_format"@.len() != "cinema_id"@.len());
    assert("exposed_format"@.len() != "movie_id"@.len());
    assert("cinema_id"@.len() != "movie_id"@.len());
    assert(r[1].relations@[0].name@ == "cinema_id"@);
    assert(r[1].relations@[1].name@ == "movie_id"@);
    assert(r[2].fields@[0].name@ == "id"@);
    assert(r[2].fields@[1].name@ == "color_movie_id"@);
    assert(r[2].fields@[2].name@ == "colormap_id"@);
    assert("id"@.len() != "color_movie_id"@.len());
    assert("id"@.len() != "colormap_id"@.len());
    assert("color_movie_id"@.len() != "colormap_id"@.len());
    assert(r[2].relations@[0].name@ == "color_movie_id"@);
    assert(r[2].relations@[1].name@ == "colormap_id"@);
    assert(r[3].fields@[0].name@ == "id"@);
    assert(r[3].fields@[1].name@ == "format"@);
    assert(r[3].fields@[2].name@ == "default_colormap"@);
    assert("id"@.len() != "format"@.len());
    assert("id"@.len() != "default_colormap"@.len());
    assert("format"@.len() != "default_colormap"@.len());
    assert(r[3].relations@[0].name@ == "default_colormap"@);
    assert(r[3].relations@[1].name@ == "color_movie_colormap"@);
    assert(r[3].relations@[2].name@ == "images"@);
    assert("default_colormap"@.len() != "color_movie_colormap"@.len());
    assert("default_colormap"@.len() != "images"@.len());
    assert(r[4].fields@[0].name@ == "id"@);
    assert(r[4].fields@[1].name@ == "name"@);
    assert(r[4].fields@[2].name@ == "colors"@);
    assert("id"@.len() != "colors"@.len());
    assert("name"@.len() != "colors"@.len());
    assert(r[4].relations@[0].name@ == "color_movie_colormap"@);
    assert(r[4].relations@[1].name@ == "color_movies"@);
    assert(r[5].fields@[0].name@ == "id"@);
    assert(r[5].fields@[1].name@ == "time"@);
    assert(r[5].fields@[2].name@ == "path"@);
    assert(r[5].fields@[3].name@ == "color_movie_id"@);
    assert("id"@.len() != "time"@.len());
    assert("id"@.len() != "path"@.len());
    assert("time"@[0] != "path"@[0]);
    assert("time"@.len() != "color_movie_id"@.len());
    assert("path"@.len() != "color_movie_id"@.len());
    assert(r[5].relations@[0].name@ == "color_movie_id"@);
    assert(r[5].relations@[1].name@ == "images_tags_values"@);
    assert("color_movie_id"@.len() != "images_tags_values"@.len());
    assert(r[6].fields@[0].name@ == "id"@);
    assert(r[6].fields@[1].name@ == "tags_value_id"@);
    assert(r[6].fields@[2].name@ == "image_id"@);
    assert("id"@.len() != "tags_value_id"@.len());
    assert("id"@.len() != "image_id"@.len());
    assert("tags_value_id"@.len() != "image_id"@.len());
    assert(r[6].relations@[0].name@ == "tags_value_id"@);
    assert(r[6].relations@[1].name@ == "image_id"@);
    assert(r[7].fields@[0].name@ == "id"@);
    assert(r[7].fields@[1].name@ == "identifier"@);
    assert(r[7].fields@[2].name@ == "name"@);
    assert(r[7].fields@[3].name@ == "description"@);
    assert(r[7].fields@[4].name@ == "path"@);
    assert("id"@.len() != "identifier"@.len());
    assert("id"@.len() != "description"@.len());
    assert("identifier"@.len() != "name"@.len());
    assert("identifier"@.len() != "description"@.len());
    assert("identifier"@.len() != "path"@.len());
    assert("name"@.len() != "description"@.len());
    assert("name"@[0] != "path"@[0]);
    assert("description"@.len() != "path"@.len());
    assert(r[7].relations@[0].name@ == "cinemas_movies"@);
    assert(r[7].relations@[1].name@ == "movies_tags"@);
    assert(r[8].fields@[0].name@ == "id"@);
    assert(r[8].fields@[1].name@ == "movie_id"@);
    assert(r[8].fields@[2].name@ == "tag_id"@);
    assert("id"@.len() != "tag_id"@.len());
    assert("movie_id"@.len() != "tag_id"@.len());
    assert(r[8].relations@[0].name@ == "movie_id"@);
    assert(r[8].relations@[1].name@ == "tag_id"@);
    assert(r[9].fields@[0].name@ == "id"@);
    assert(r[9].fields@[1].name@ == "name"@);
    assert(r[9].relations@[0].name@ == "movies_tags"@);
    assert(r[9].relations@[1].name@ == "tags_values"@);
    assert(r[10].fields@[0].name@ == "id"@);
    assert(r[10].fields@[1].name@ == "value"@);
    assert(r[10].fields@[2].name@ == "tag_id"@);
    assert("id"@.len() != "value"@.len());
    assert("value"@.len() != "tag_id"@.len());
    assert(r[10].relations@[0].name@ == "tag_id"@);
    assert(r[10].relations@[1].name@ == "images_tags_values"@);
    assert("tag_id"@.len() != "images_tags_values"@.len());
    assert(r[11].fields@[0].name@ == "id"@);
    assert(r[11].fields@[1].name@ == "time"@);
    assert(r[11].fields@[2].name@ == "properties"@);
    assert(r[11].fields@[3].name@ == "vector_movie_id"@);
    assert("id"@.len() != "properties"@.len());
    assert("id"@.len() != "vector_movie_id"@.len());
    assert("time"@.len() != "properties"@.len());
    assert("time"@.len() != "vector_movie_id"@.len());
    assert("properties"@.len() != "vector_movie_id"@.len());
    assert(r[11].relations@[0].name@ == "vector_movie_id"@);
    assert(r[12].fields@[0].name@ == "id"@);
    assert(r[12].fields@[1].name@ == "default_style"@);
    assert("id"@.len() != "default_style"@.len());
    assert(r[12].relations@[0].name@ == "default_style"@);
    assert(r[12].relations@[1].name@ == "vector_data"@);
    assert(r[12].relations@[2].name@ == "vector_styles_vector_movies"@);
    assert("default_style"@.len() != "vector_data"@.len());
    assert("default_style"@.len() != "vector_styles_vector_movies"@.len());
    assert(r[13].fields@[0].name@ == "id"@);
    assert(r[13].fields@[1].name@ == "name"@);
    assert(r[13].fields@[2].name@ == "style"@);
    assert("id"@.len() != "style"@.len());
    assert("name"@.len() != "style"@.len());
    assert(r[13].relations@[0].name@ == "vector_movies"@);
    assert(r[13].relations@[1].name@ == "vector_styles_vector_movies"@);
    assert(r[14].fields@[0].name@ == "id"@);
    assert(r[14].fields@[1].name@ == "vector_movie_id"@);
    assert(r[14].fields@[2].name@ == "vector_style_id"@);
    assert("id"@.len() != "vector_style_id"@.len());
    assert("vector_movie_id"@[7] != "vector_style_id"@[7]);
    assert(r[14].relations@[0].name@ == "vector_movie_id"@);
    assert(r[14].relations@[1].name@ == "vector_style_id"@);
    assert forall|i: int, j: int| 0 <= i < j < r.len() implies r[i].table@ != r[j].table@ by {
        assert(i == 0 || i == 1 || i == 2 || i == 3 || i == 4 || i == 5 || i == 6 || i == 7 || i == 8 || i == 9 || i == 10 || i == 11 || i == 12 || i == 13 || i == 14);
        assert(j == 0 || j == 1 || j == 2 || j == 3 || j == 4 || j == 5 || j == 6 || j == 7 || j == 8 || j == 9 || j == 10 || j == 11 || j == 12 || j == 13 || j == 14);
    }
    assert(tables_distinct(r));
    assert(members_distinct(r[0])) by {
        assert forall|a: int, b: int| 0 <= a < b < r[0].fields@.len() implies r[0].fields@[a].name@ != r[0].fields@[b].name@ by {
            assert(a == 0 || a == 1);
            assert(b == 0 || b == 1);
        }
    }
    assert(r[1].table@ == r[0].relations@[0].target@);
    assert(table_of(r, r[0].relations@[0].target@) == 1);
    assert(fk_column_at(r[1].fields@, 2, r[0].relations@[0].fk_column@));
    assert(relation_ok(r, 0, 0));
    assert(entity_ok(r, 0)) by {
        assert forall|k: int| 0 <= k < r[0].relations@.len() implies relation_ok(r, 0, k) by {
            assert(k == 0);
        }
    }
    assert(members_distinct(r[1])) by {
        assert forall|a: int, b: int| 0 <= a < b < r[1].fields@.len() implies r[1].fields@[a].name@ != r[1].fields@[b].name@ by {
            assert(a == 0 || a == 1 || a == 2 || a == 3);
            assert(b == 0 || b == 1 || b == 2 || b == 3);
        }
        assert forall|a: int, b: int| 0 <= a < b < r[1].relations@.len() implies r[1].relations@[a].name@ != r[1].relations@[b].name@ by {
            assert(a == 0 || a == 1);
            assert(b == 0 || b == 1);
        }
    }
    assert(r[0].table@ == r[1].relations@[0].target@);
    assert(table_of(r, r[1].relations@[0].target@) == 0);
    assert(fk_column_at(r[1].fields@, 2, r[1].relations@[0].fk_column@));
    assert(relation_ok(r, 1, 0));
    assert(r[7].table@ == r[1].relations@[1].target@);
    assert(table_of(r, r[1].relations@[1].target@) == 7);
    assert(fk_column_at(r[1].fields@, 3, r[1].relations@[1].fk_column@));
    assert(relation_ok(r, 1, 1));
    assert(entity_ok(r, 1)) by {
        assert forall|k: int| 0 <= k < r[1].relations@.len() implies relation_ok(r, 1, k) by {
            assert(k == 0 || k == 1);
        }
    }
    assert(members_distinct(r[2])) by {
        assert forall|a: int, b: int| 0 <= a < b < r[2].fields@.len() implies r[2].fields@[a].name@ != r[2].fields@[b].name@ by {
            assert(a == 0 || a == 1 || a == 2);
            assert(b == 0 || b == 1 || b == 2);
        }
        assert forall|a: int, b: int| 0 <= a < b < r[2].relations@.len() implies r[2].relations@[a].name@ != r[2].relations@[b].name@ by {
            assert(a == 0 || a == 1);
            assert(b == 0 || b == 1);
        }
    }
    assert(r[3].table@ == r[2].relations@[0].target@);
    assert(table_of(r, r[2].relations@[0].target@) == 3);
    assert(fk_column_at(r[2].fields@, 1, r[2].relations@[0].fk_column@));
    assert(relation_ok(r, 2, 0));
    assert(r[4].table@ == r[2].relations@[1].target@);
    assert(table_of(r, r[2].relations@[1].target@) == 4);
    assert(fk_column_at(r[2].fields@, 2, r[2].relations@[1].fk_column@));
    assert(relation_ok(r, 2, 1));
    assert(entity_ok(r, 2)) by {
        assert forall|k: int| 0 <= k < r[2].relations@.len() implies relation_ok(r, 2, k) by {
            assert(k == 0 || k == 1);
        }
    }
    assert(members_distinct(r[3])) by {
        assert forall|a: int, b: int| 0 <= a < b < r[3].fields@.len() implies r[3].fields@[a].name@ != r[3].fields@[b].name@ by {
            assert(a == 0 || a == 1 || a == 2);
            assert(b == 0 || b == 1 || b == 2);
        }
        assert forall|a: int, b: int| 0 <= a < b < r[3].relations@.len() implies r[3].relations@[a].name@ != r[3].relations@[b].name@ by {
            assert(a == 0 || a == 1 || a == 2);
            assert(b == 0 || b == 1 || b == 2);
        }
    }
    assert(r[4].table@ == r[3].relations@[0].target@);
    assert(table_of(r, r[3].relations@[0].target@) == 4);
    assert(fk_column_at(r[3].fields@, 2, r[3].relations@[0].fk_column@));
    assert(relation_ok(r, 3, 0));
    assert(r[2].table@ == r[3].relations@[1].target@);
    assert(table_of(r, r[3].relations@[1].target@) == 2);
    assert(fk_column_at(r[2].fields@, 1, r[3].relations@[1].fk_column@));
    assert(relation_ok(r, 3, 1));
    assert(r[5].table@ == r[3].relations@[2].target@);
    assert(table_of(r, r[3].relations@[2].target@) == 5);
    assert(fk_column_at(r[5].fields@, 3, r[3].relations@[2].fk_column@));
    assert(relation_ok(r, 3, 2));
    assert(entity_ok(r, 3)) by {
        assert forall|k: int| 0 <= k < r[3].relations@.len() implies relation_ok(r, 3, k) by {
            assert(k == 0 || k == 1 || k == 2);
        }
    }
    assert(members_distinct(r[4])) by {
        assert forall|a: int, b: int| 0 <= a < b < r[4].fields@.len() implies r[4].fields@[a].name@ != r[4].fields@[b].name@ by {
            assert(a == 0 || a == 1 || a == 2);
            assert(b == 0 || b == 1 || b == 2);
        }
        assert forall|a: int, b: int| 0 <= a < b < r[4].relations@.len() implies r[4].relations@[a].name@ != r[4].relations@[b].name@ by {
            assert(a == 0 || a == 1);
            assert(b == 0 || b == 1);
        }
    }
    assert(r[2].table@ == r[4].relations@[0].target@);
    assert(table_of(r, r[4].relations@[0].target@) == 2);
    assert(fk_column_at(r[2].fields@, 2, r[4].relations@[0].fk_column@));
    assert(relation_ok(r, 4, 0));
    assert(r[3].table@ == r[4].relations@[1].target@);
    assert(table_of(r, r[4].relations@[1].target@) == 3);
    assert(fk_column_at(r[3].fields@, 2, r[4].relations@[1].fk_column@));
    assert(relation_ok(r, 4, 1));
    assert(entity_ok(r, 4)) by {
        assert forall|k: int| 0 <= k < r[4].relations@.len() implies relation_ok(r, 4, k) by {
            assert(k == 0 || k == 1);
        }
    }
    assert(members_distinct(r[5])) by {
        assert forall|a: int, b: int| 0 <= a < b < r[5].fields@.len() implies r[5].fields@[a].name@ != r[5].fields@[b].name@ by {
            assert(a == 0 || a == 1 || a == 2 || a == 3);
            assert(b == 0 || b == 1 || b == 2 || b == 3);
        }
        assert forall|a: int, b: int| 0 <= a < b < r[5].relations@.len() implies r[5].relations@[a].name@ != r[5].relations@[b].name@ by {
            assert(a == 0 || a == 1);
            assert(b == 0 || b == 1);
        }
    }
    assert(r[3].table@ == r[5].relations@[0].target@);
    assert(table_of(r, r[5].relations@[0].target@) == 3);
    assert(fk_column_at(r[5].fields@, 3, r[5].relations@[0].fk_column@));
    assert(relation_ok(r, 5, 0));
    assert(r[6].table@ == r[5].relations@[1].target@);
    assert(table_of(r, r[5].relations@[1].target@) == 6);
    assert(fk_column_at(r[6].fields@, 2, r[5].relations@[1].fk_column@));
    assert(relation_ok(r, 5, 1));
    assert(entity_ok(r, 5)) by {
        assert forall|k: int| 0 <= k < r[5].relations@.len() implies relation_ok(r, 5, k) by {
            assert(k == 0 || k == 1);
        }
    }
    assert(members_distinct(r[6])) by {
        assert forall|a: int, b: int| 0 <= a < b < r[6].fields@.len() implies r[6].fields@[a].name@ != r[6].fields@[b].name@ by {
            assert(a == 0 || a == 1 || a == 2);
            assert(b == 0 || b == 1 || b == 2);
        }
        assert forall|a: int, b: int| 0 <= a < b < r[6].relations@.len() implies r[6].relations@[a].name@ != r[6].relations@[b].name@ by {
            assert(a == 0 || a == 1);
            assert(b == 0 || b == 1);
        }
    }
    assert(r[10].table@ == r[6].relations@[0].target@);
    assert(table_of(r, r[6].relations@[0].target@) == 10);
    assert(fk_column_at(r[6].fields@, 1, r[6].relations@[0].fk_column@));
    assert(relation_ok(r, 6, 0));
    assert(r[5].table@ == r[6].relations@[1].target@);
    assert(table_of(r, r[6].relations@[1].target@) == 5);
    assert(fk_column_at(r[6].fields@, 2, r[6].relations@[1].fk_column@));
    assert(relation_ok(r, 6, 1));
    assert(entity_ok(r, 6)) by {
        assert forall|k: int| 0 <= k < r[6].relations@.len() implies relation_ok(r, 6, k) by {
            assert(k == 0 || k == 1);
        }
    }
    assert(members_distinct(r[7])) by {
        assert forall|a: int, b: int| 0 <= a < b < r[7].fields@.len() implies r[7].fields@[a].name@ != r[7].fields@[b].name@ by {
            assert(a == 0 || a == 1 || a == 2 || a == 3 || a == 4);
            assert(b == 0 || b == 1 || b == 2 || b == 3 || b == 4);
        }
        assert forall|a: int, b: int| 0 <= a < b < r[7].relations@.len() implies r[7].relations@[a].name@ != r[7].relations@[b].name@ by {
            assert(a == 0 || a == 1);
            assert(b == 0 || b == 1);
        }
    }
    assert(r[1].table@ == r[7].relations@[0].target@);
    assert(table_of(r, r[7].relations@[0].target@) == 1);
    assert(fk_column_at(r[1].fields@, 3, r[7].relations@[0].fk_column@));
    assert(relation_ok(r, 7, 0));
    assert(r[8].table@ == r[7].relations@[1].target@);
    assert(table_of(r, r[7].relations@[1].target@) == 8);
    assert(fk_column_at(r[8].fields@, 1, r[7].relations@[1].fk_column@));
    assert(relation_ok(r, 7, 1));
    assert(entity_ok(r, 7)) by {
        assert forall|k: int| 0 <= k < r[7].relations@.len() implies relation_ok(r, 7, k) by {
            assert(k == 0 || k == 1);
        }
    }
    assert(members_distinct(r[8])) by {
        assert forall|a: int, b: int| 0 <= a < b < r[8].fields@.len() implies r[8].fields@[a].name@ != r[8].fields@[b].name@ by {
            assert(a == 0 || a == 1 || a == 2);
            assert(b == 0 || b == 1 || b == 2);
        }
        assert forall|a: int, b: int| 0 <= a < b < r[8].relations@.len() implies r[8].relations@[a].name@ != r[8].relations@[b].name@ by {
            assert(a == 0 || a == 1);
            assert(b == 0 || b == 1);
        }
    }
    assert(r[7].table@ == r[8].relations@[0].target@);
    assert(table_of(r, r[8].relations@[0].target@) == 7);
    assert(fk_column_at(r[8].fields@, 1, r[8].relations@[0].fk_column@));
    assert(relation_ok(r, 8, 0));
    assert(r[9].table@ == r[8].relations@[1].target@);
    assert(table_of(r, r[8].relations@[1].target@) == 9);
    assert(fk_column_at(r[8].fields@, 2, r[8].relations@[1].fk_column@));
    assert(relation_ok(r, 8, 1));
    assert(entity_ok(r, 8)) by {
        assert forall|k: int| 0 <= k < r[8].relations@.len() implies relation_ok(r, 8, k) by {
            assert(k == 0 || k == 1);
        }
    }
    assert(members_distinct(r[9])) by {
        assert forall|a: int, b: int| 0 <= a < b < r[9].fields@.len() implies r[9].fields@[a].name@ != r[9].fields@[b].name@ by {
            assert(a == 0 || a == 1);
            assert(b == 0 || b == 1);
        }
        assert forall|a: int, b: int| 0 <= a < b < r[9].relations@.len() implies r[9].relations@[a].name@ != r[9].relations@[b].name@ by {
            assert(a == 0 || a == 1);
            assert(b == 0 || b == 1);
        }
    }
    assert(r[8].table@ == r[9].relations@[0].target@);
    assert(table_of(r, r[9].relations@[0].target@) == 8);
    assert(fk_column_at(r[8].fields@, 2, r[9].relations@[0].fk_column@));
    assert(relation_ok(r, 9, 0));
    assert(r[10].table@ == r[9].relations@[1].target@);
    assert(table_of(r, r[9].relations@[1].target@) == 10);
    assert(fk_column_at(r[10].fields@, 2, r[9].relations@[1].fk_column@));
    assert(relation_ok(r, 9, 1));
    assert(entity_ok(r, 9)) by {
        assert forall|k: int| 0 <= k < r[9].relations@.len() implies relation_ok(r, 9, k) by {
            assert(k == 0 || k == 1);
        }
    }
    assert(members_distinct(r[10])) by {
        assert forall|a: int, b: int| 0 <= a < b < r[10].fields@.len() implies r[10].fields@[a].name@ != r[10].fields@[b].name@ by {
            assert(a == 0 || a == 1 || a == 2);
            assert(b == 0 || b == 1 || b == 2);
        }
        assert forall|a: int, b: int| 0 <= a < b < r[10].relations@.len() implies r[10].relations@[a].name@ != r[10].relations@[b].name@ by {
            assert(a == 0 || a == 1);
            assert(b == 0 || b == 1);
        }
    }
    assert(r[9].table@ == r[10].relations@[0].target@);
    assert(table_of(r, r[10].relations@[0].target@) == 9);
    assert(fk_column_at(r[10].fields@, 2, r[10].relations@[0].fk_column@));
    assert(relation_ok(r, 10, 0));
    assert(r[6].table@ == r[10].relations@[1].target@);
    assert(table_of(r, r[10].relations@[1].target@) == 6);
    assert(fk_column_at(r[6].fields@, 1, r[10].relations@[1].fk_column@));
    assert(relation_ok(r, 10, 1));
    assert(entity_ok(r, 10)) by {
        assert forall|k: int| 0 <= k < r[10].relations@.len() implies relation_ok(r, 10, k) by {
            assert(k == 0 || k == 1);
        }
    }
    assert(members_distinct(r[11])) by {
        assert forall|a: int, b: int| 0 <= a < b < r[11].fields@.len() implies r[11].fields@[a].name@ != r[11].fields@[b].name@ by {
            assert(a == 0 || a == 1 || a == 2 || a == 3);
            assert(b == 0 || b == 1 || b == 2 || b == 3);
        }
    }
    assert(r[12].table@ == r[11].relations@[0].target@);
    assert(table_of(r, r[11].relations@[0].target@) == 12);
    assert(fk_column_at(r[11].fields@, 3, r[11].relations@[0].fk_column@));
    assert(relation_ok(r, 11, 0));
    assert(entity_ok(r, 11)) by {
        assert forall|k: int| 0 <= k < r[11].relations@.len() implies relation_ok(r, 11, k) by {
            assert(k == 0);
        }
    }
    assert(members_distinct(r[12])) by {
        assert forall|a: int, b: int| 0 <= a < b < r[12].fields@.len() implies r[12].fields@[a].name@ != r[12].fields@[b].name@ by {
            assert(a == 0 || a == 1);
            assert(b == 0 || b == 1);
        }
        assert forall|a: int, b: int| 0 <= a < b < r[12].relations@.len() implies r[12].relations@[a].name@ != r[12].relations@[b].name@ by {
            assert(a == 0 || a == 1 || a == 2);
            assert(b == 0 || b == 1 || b == 2);
        }
    }
    assert(r[13].table@ == r[12].relations@[0].target@);
    assert(table_of(r, r[12].relations@[0].target@) == 13);
    assert(fk_column_at(r[12].fields@, 1, r[12].relations@[0].fk_column@));
    assert(relation_ok(r, 12, 0));
    assert(r[11].table@ == r[12].relations@[1].target@);
    assert(table_of(r, r[12].relations@[1].target@) == 11);
    assert(fk_column_at(r[11].fields@, 3, r[12].relations@[1].fk_column@));
    assert(relation_ok(r, 12, 1));
    assert(r[14].table@ == r[12].relations@[2].target@);
    assert(table_of(r, r[12].relations@[2].target@) == 14);
    assert(fk_column_at(r[14].fields@, 1, r[12].relations@[2].fk_column@));
    assert(relation_ok(r, 12, 2));
    assert(entity_ok(r, 12)) by {
        assert forall|k: int| 0 <= k < r[12].relations@.len() implies relation_ok(r, 12, k) by {
            assert(k == 0 || k == 1 || k == 2);
        }
    }
    assert(members_distinct(r[13])) by {
        assert forall|a: int, b: int| 0 <= a < b < r[13].fields@.len() implies r[13].fields@[a].name@ != r[13].fields@[b].name@ by {
            assert(a == 0 || a == 1 || a == 2);
            assert(b == 0 || b == 1 || b == 2);
        }
        assert forall|a: int, b: int| 0 <= a < b < r[13].relations@.len() implies r[13].relations@[a].name@ != r[13].relations@[b].name@ by {
            assert(a == 0 || a == 1);
            assert(b == 0 || b == 1);
        }
    }
    assert(r[12].table@ == r[13].relations@[0].target@);
    assert(table_of(r, r[13].relations@[0].target@) == 12);
    assert(fk_column_at(r[12].fields@, 1, r[13].relations@[0].fk_column@));
    assert(relation_ok(r, 13, 0));
    assert(r[14].table@ == r[13].relations@[1].target@);
    assert(table_of(r, r[13].relations@[1].target@) == 14);
    assert(fk_column_at(r[14].fields@, 2, r[13].relations@[1].fk_column@));
    assert(relation_ok(r, 13, 1));
    assert(entity_ok(r, 13)) by {
        assert forall|k: int| 0 <= k < r[13].relations@.len() implies relation_ok(r, 13, k) by {
            assert(k == 0 || k == 1);
        }
    }
    assert(members_distinct(r[14])) by {
        assert forall|a: int, b: int| 0 <= a < b < r[14].fields@.len() implies r[14].fields@[a].name@ != r[14].fields@[b].name@ by {
            assert(a == 0 || a == 1 || a == 2);
            assert(b == 0 || b == 1 || b == 2);
        }
        assert forall|a: int, b: int| 0 <= a < b < r[14].relations@.len() implies r[14].relations@[a].name@ != r[14].relations@[b].name@ by {
            assert(a == 0 || a == 1);
            assert(b == 0 || b == 1);
        }
    }
    assert(r[12].table@ == r[14].relations@[0].target@);
    assert(table_of(r, r[14].relations@[0].target@) == 12);
    assert(fk_column_at(r[14].fields@, 1, r[14].relations@[0].fk_column@));
    assert(relation_ok(r, 14, 0));
    assert(r[13].table@ == r[14].relations@[1].target@);
    assert(table_of(r, r[14].relations@[1].target@) == 13);
    assert(fk_column_at(r[14].fields@, 2, r[14].relations@[1].fk_column@));
    assert(relation_ok(r, 14, 1));
    assert(entity_ok(r, 14)) by {
        assert forall|k: int| 0 <= k < r[14].relations@.len() implies relation_ok(r, 14, k) by {
            assert(k == 0 || k == 1);
        }
    }
}

/// A nullable integer column value.
pub open spec fn opt_int(v: Option<i32>) -> Value {
    match v {
        Some(i) => Value::Int(i as i64),
        None => Value::Null,
    }
}

/// The payload that inserts a cinema.
pub struct NewCinema {
    pub name: String,
}

impl NewCinema {
    /// The column values, in the entity's column order.
    pub fn into_payload(self) -> (r: Vec<Value>)
        ensures
            r@ == seq![Value::Text(self.name)],
    {
        vec![Value::Text(self.name)]
    }
}

/// The payload that replaces a whole cinema row, key first.
pub struct CinemaChangeset {
    pub id: i32,
    pub name: String,
}

impl CinemaChangeset {
    /// The column values, in the entity's column order.
    pub fn into_payload(self) -> (r: Vec<Value>)
        ensures
            r@ == seq![Value::Int(self.id as i64), Value::Text(self.name)],
    {
        vec![Value::Int(self.id as i64), Value::Text(self.name)]
    }
}

/// The payload that inserts a color movie colormap link.
pub struct NewColorMovieColormap {
    pub color_movie_id: i32,
    pub colormap_id: i32,
}

impl NewColorMovieColormap {
    /// The column values, in the entity's column order.
    pub fn into_payload(self) -> (r: Vec<Value>)
        ensures
            r@ == seq![Value::Int(self.color_movie_id as i64), Value::Int(self.colormap_id as i64)],
    {
        vec![Value::Int(self.color_movie_id as i64), Value::Int(self.colormap_id as i64)]
    }
}

/// The payload that replaces a whole color movie colormap link row, key first.
pub struct ColorMovieColormapChangeset {
    pub id: i32,
    pub color_movie_id: i32,
    pub colormap_id: i32,
}

impl ColorMovieColormapChangeset {
    /// The column values, in the entity's column order.
    pub fn into_payload(self) -> (r: Vec<Value>)
        ensures
            r@ == seq![Value::Int(self.id as i64), Value::Int(self.color_movie_id as i64), Value::Int(self.colormap_id as i64)],
    {
        vec![Value::Int(self.id as i64), Value::Int(self.color_movie_id as i64), Value::Int(self.colormap_id as i64)]
    }
}

/// The payload that inserts a color movie.
pub struct NewColorMovie {
    pub format: i16,
    pub default_colormap: i32,
}

impl NewColorMovie {
    /// The column values, in the entity's column order.
    pub fn into_payload(self) -> (r: Vec<Value>)
        ensures
            r@ == seq![Value::Int(self.format as i64), Value::Int(self.default_colormap as i64)],
    {
        vec![Value::Int(self.format as i64), Value::Int(self.default_colormap as i64)]
    }
}

/// The payload that replaces a whole color movie row, key first.
pub struct ColorMovieChangeset {
    pub id: i32,
    pub format: i16,
    pub default_colormap: i32,
}

impl ColorMovieChangeset {
    /// The column values, in the entity's column order.
    pub fn into_payload(self) -> (r: Vec<Value>)
        ensures
            r@ == seq![Value::Int(self.id as i64), Value::Int(self.format as i64), Value::Int(self.default_colormap as i64)],
    {
        vec![Value::Int(self.id as i64), Value::Int(self.format as i64), Value::Int(self.default_colormap as i64)]
    }
}

/// The payload that inserts an image tag value link.
pub struct NewImagesTagsValue {
    pub tags_value_id: i32,
    pub image_id: i32,
}

impl NewImagesTagsValue {
    /// The column values, in the entity's column order.
    pub fn into_payload(self) -> (r: Vec<Value>)
        ensures
            r@ == seq![Value::Int(self.tags_value_id as i64), Value::Int(self.image_id as i64)],
    {
        vec![Value::Int(self.tags_value_id as i64), Value::Int(self.image_id as i64)]
    }
}

/// The payload that replaces a whole image tag value link row, key first.
pub struct ImagesTagsValueChangeset {
    pub id: i32,
    pub tags_value_id: i32,
    pub image_id: i32,
}

impl ImagesTagsValueChangeset {
    /// The column values, in the entity's column order.
    pub fn into_payload(self) -> (r: Vec<Value>)
        ensures
            r@ == seq![Value::Int(self.id as i64), Value::Int(self.tags_value_id as i64), Value::Int(self.image_id as i64)],
    {
        vec![Value::Int(self.id as i64), Value::Int(self.tags_value_id as i64), Value::Int(self.image_id as i64)]
    }
}

/// The payload that inserts a movie tag link.
pub struct NewMoviesTag {
    pub movie_id: i32,
    pub tag_id: i32,
}

impl NewMoviesTag {
    /// The column values, in the entity's column order.
    pub fn into_payload(self) -> (r: Vec<Value>)
        ensures
            r@ == seq![Value::Int(self.movie_id as i64), Value::Int(self.tag_id as i64)],
    {
        vec![Value::Int(self.movie_id as i64), Value::Int(self.tag_id as i64)]
    }
}

/// The payload that replaces a whole movie tag link row, key first.
pub struct MoviesTagChangeset {
    pub id: i32,
    pub movie_id: i32,
    pub tag_id: i32,
}

impl MoviesTagChangeset {
    /// The column values, in the entity's column order.
    pub fn into_payload(self) -> (r: Vec<Value>)
        ensures
            r@ == seq![Value::Int(self.id as i64), Value::Int(self.movie_id as i64), Value::Int(self.tag_id as i64)],
    {
        vec![Value::Int(self.id as i64), Value::Int(self.movie_id as i64), Value::Int(self.tag_id as i64)]
    }
}

/// The payload that inserts a tag.
pub struct NewTag {
    pub name: String,
}

impl NewTag {
    /// The column values, in the entity's column order.
    pub fn into_payload(self) -> (r: Vec<Value>)
        ensures
            r@ == seq![Value::Text(self.name)],
    {
        vec![Value::Text(self.name)]
    }
}

/// The payload that replaces a whole tag row, key first.
pub struct TagChangeset {
    pub id: i32,
    pub name: String,
}

impl TagChangeset {
    /// The column values, in the entity's column order.
    pub fn into_payload(self) -> (r: Vec<Value>)
        ensures
            r@ == seq![Value::Int(self.id as i64), Value::Text(self.name)],
    {
        vec![Value::Int(self.id as i64), Value::Text(self.name)]
    }
}

/// The payload that inserts a tag value.
pub struct NewTagsValue {
    pub value: String,
    pub tag_id: i32,
}

impl NewTagsValue {
    /// The column values, in the entity's column order.
    pub fn into_payload(self) -> (r: Vec<Value>)
        ensures
            r@ == seq![Value::Text(self.value), Value::Int(self.tag_id as i64)],
    {
        vec![Value::Text(self.value), Value::Int(self.tag_id as i64)]
    }
}

/// The payload that replaces a whole tag value row, key first.
pub struct TagsValueChangeset {
    pub id: i32,
    pub value: String,
    pub tag_id: i32,
}

impl TagsValueChangeset {
    /// The column values, in the entity's column order.
    pub fn into_payload(self) -> (r: Vec<Value>)
        ensures
            r@ == seq![Value::Int(self.id as i64), Value::Text(self.value), Value::Int(self.tag_id as i64)],
    {
        vec![Value::Int(self.id as i64), Value::Text(self.value), Value::Int(self.tag_id as i64)]
    }
}

/// The payload that inserts a vector movie.
pub struct NewVectorMovie {
    pub default_style: Option<i32>,
}

impl NewVectorMovie {
    /// The column values, in the entity's column order.
    pub fn into_payload(self) -> (r: Vec<Value>)
        ensures
            r@ == seq![opt_int(self.default_style)],
    {
        vec![match self.default_style { Some(v) => Value::Int(v as i64), None => Value::Null }]
    }
}

/// The payload that replaces a whole vector movie row, key first.
pub struct VectorMovieChangeset {
    pub id: i32,
    pub default_style: Option<i32>,
}

impl VectorMovieChangeset {
    /// The column values, in the entity's column order.
    pub fn into_payload(self) -> (r: Vec<Value>)
        ensures
            r@ == seq![Value::Int(self.id as i64), opt_int(self.default_style)],
    {
        vec![Value::Int(self.id as i64), match self.default_style { Some(v) => Value::Int(v as i64), None => Value::Null }]
    }
}

/// The payload that inserts a vector style link.
pub struct NewVectorStylesVectorMovie {
    pub vector_movie_id: i32,
    pub vector_style_id: i32,
}

impl NewVectorStylesVectorMovie {
    /// The column values, in the entity's column order.
    pub fn into_payload(self) -> (r: Vec<Value>)
        ensures
            r@ == seq![Value::Int(self.vector_movie_id as i64), Value::Int(self.vector_style_id as i64)],
    {
        vec![Value::Int(self.vector_movie_id as i64), Value::Int(self.vector_style_id as i64)]
    }
}

/// The payload that replaces a whole vector style link row, key first.
pub struct VectorStylesVectorMovieChangeset {
    pub id: i32,
    pub vector_movie_id: i32,
    pub vector_style_id: i32,
}

impl VectorStylesVectorMovieChangeset {
    /// The column values, in the entity's column order.
    pub fn into_payload(self) -> (r: Vec<Value>)
        ensures
            r@ == seq![Value::Int(self.id as i64), Value::Int(self.vector_movie_id as i64), Value::Int(self.vector_style_id as i64)],
    {
        vec![Value::Int(self.id as i64), Value::Int(self.vector_movie_id as i64), Value::Int(self.vector_style_id as i64)]
    }
}

/// A nullable text column value.
pub open spec fn opt_text(v: Option<String>) -> Value {
    match v {
        Some(s) => Value::Text(s),
        None => Value::Null,
    }
}

/// The payload that inserts a cinema showing of a movie (the pixel box is not modelled).
pub struct NewCinemasMovie {
    pub exposed_format: Option<i32>,
    pub cinema_id: i32,
    pub movie_id: i32,
}

impl NewCinemasMovie {
    /// The column values, in the entity's column order.
    pub fn into_payload(self) -> (r: Vec<Value>)
        ensures
            r@ == seq![opt_int(self.exposed_format), Value::Int(self.cinema_id as i64), Value::Int(self.movie_id as i64)],
    {
        vec![match self.exposed_format { Some(v) => Value::Int(v as i64), None => Value::Null }, Value::Int(self.cinema_id as i64), Value::Int(self.movie_id as i64)]
    }
}

/// The payload that replaces a whole row of a cinema showing of a movie (the pixel box is not modelled), key first.
pub struct CinemasMovieChangeset {
    pub id: i32,
    pub exposed_format: Option<i32>,
    pub cinema_id: i32,
    pub movie_id: i32,
}

impl CinemasMovieChangeset {
    /// The column values, in the entity's column order.
    pub fn into_payload(self) -> (r: Vec<Value>)
        ensures
            r@ == seq![Value::Int(self.id as i64), opt_int(self.exposed_format), Value::Int(self.cinema_id as i64), Value::Int(self.movie_id as i64)],
    {
        vec![Value::Int(self.id as i64), match self.exposed_format { Some(v) => Value::Int(v as i64), None => Value::Null }, Value::Int(self.cinema_id as i64), Value::Int(self.movie_id as i64)]
    }
}

/// The payload that inserts a colormap; `colors` is a JSON array of text (its float
/// positions are not modelled).
pub struct NewColormap {
    pub name: String,
    pub colors: String,
}

impl NewColormap {
    /// The column values, in the entity's column order.
    pub fn into_payload(self) -> (r: Vec<Value>)
        ensures
            r@ == seq![Value::Text(self.name), Value::Text(self.colors)],
    {
        vec![Value::Text(self.name), Value::Text(self.colors)]
    }
}

/// The payload that replaces a whole colormap row, key first; `colors` is a JSON array of
/// text (its float positions are not modelled).
pub struct ColormapChangeset {
    pub id: i32,
    pub name: String,
    pub colors: String,
}

impl ColormapChangeset {
    /// The column values, in the entity's column order.
    pub fn into_payload(self) -> (r: Vec<Value>)
        ensures
            r@ == seq![Value::Int(self.id as i64), Value::Text(self.name), Value::Text(self.colors)],
    {
        vec![Value::Int(self.id as i64), Value::Text(self.name), Value::Text(self.colors)]
    }
}

/// The payload that inserts an image (its box is not modelled); `time` in seconds.
pub struct NewImage {
    pub time: i64,
    pub path: String,
    pub color_movie_id: i32,
}

impl NewImage {
    /// The column values, in the entity's column order.
    pub fn into_payload(self) -> (r: Vec<Value>)
        ensures
            r@ == seq![Value::Int(self.time), Value::Text(self.path), Value::Int(self.color_movie_id as i64)],
    {
        vec![Value::Int(self.time), Value::Text(self.path), Value::Int(self.color_movie_id as i64)]
    }
}

/// The payload that replaces a whole row of an image (its box is not modelled); `time` in seconds, key first.
pub struct ImageChangeset {
    pub id: i32,
    pub time: i64,
    pub path: String,
    pub color_movie_id: i32,
}

impl ImageChangeset {
    /// The column values, in the entity's column order.
    pub fn into_payload(self) -> (r: Vec<Value>)
        ensures
            r@ == seq![Value::Int(self.id as i64), Value::Int(self.time), Value::Text(self.path), Value::Int(self.color_movie_id as i64)],
    {
        vec![Value::Int(self.id as i64), Value::Int(self.time), Value::Text(self.path), Value::Int(self.color_movie_id as i64)]
    }
}

/// The payload that inserts a movie (its pixel box is not modelled).
pub struct NewMovie {
    pub identifier: String,
    pub name: String,
    pub description: Option<String>,
    pub path: Option<String>,
}

impl NewMovie {
    /// The column values, in the entity's column order.
    pub fn into_payload(self) -> (r: Vec<Value>)
        ensures
            r@ == seq![Value::Text(self.identifier), Value::Text(self.name), opt_text(self.description), opt_text(self.path)],
    {
        vec![Value::Text(self.identifier), Value::Text(self.name), match self.description { Some(v) => Value::Text(v), None => Value::Null }, match self.path { Some(v) => Value::Text(v), None => Value::Null }]
    }
}

/// The payload that replaces a whole row of a movie (its pixel box is not modelled), key first.
pub struct MovieChangeset {
    pub id: i32,
    pub identifier: String,
    pub name: String,
    pub description: Option<String>,
    pub path: Option<String>,
}

impl MovieChangeset {
    /// The column values, in the entity's column order.
    pub fn into_payload(self) -> (r: Vec<Value>)
        ensures
            r@ == seq![Value::Int(self.id as i64), Value::Text(self.identifier), Value::Text(self.name), opt_text(self.description), opt_text(self.path)],
    {
        vec![Value::Int(self.id as i64), Value::Text(self.identifier), Value::Text(self.name), match self.description { Some(v) => Value::Text(v), None => Value::Null }, match self.path { Some(v) => Value::Text(v), None => Value::Null }]
    }
}

/// The payload that inserts a vector data record; `time` in seconds, `properties` a JSON document.
pub struct NewVectorData {
    pub time: i64,
    pub properties: Option<String>,
    pub vector_movie_id: i32,
}

impl NewVectorData {
    /// The column values, in the entity's column order.
    pub fn into_payload(self) -> (r: Vec<Value>)
        ensures
            r@ == seq![Value::Int(self.time), opt_text(self.properties), Value::Int(self.vector_movie_id as i64)],
    {
        vec![Value::Int(self.time), match self.properties { Some(v) => Value::Text(v), None => Value::Null }, Value::Int(self.vector_movie_id as i64)]
    }
}

/// The payload that replaces a whole row of a vector data record; `time` in seconds, `properties` a JSON document, key first.
pub struct VectorDataChangeset {
    pub id: i32,
    pub time: i64,
    pub properties: Option<String>,
    pub vector_movie_id: i32,
}

impl VectorDataChangeset {
    /// The column values, in the entity's column order.
    pub fn into_payload(self) -> (r: Vec<Value>)
        ensures
            r@ == seq![Value::Int(self.id as i64), Value::Int(self.time), opt_text(self.properties), Value::Int(self.vector_movie_id as i64)],
    {
        vec![Value::Int(self.id as i64), Value::Int(self.time), match self.properties { Some(v) => Value::Text(v), None => Value::Null }, Value::Int(self.vector_movie_id as i64)]
    }
}

/// The payload that inserts a vector style; `style` a JSON document.
pub struct NewVectorStyle {
    pub name: String,
    pub style: String,
}

impl NewVectorStyle {
    /// The column values, in the entity's column order.
    pub fn into_payload(self) -> (r: Vec<Value>)
        ensures
            r@ == seq![Value::Text(self.name), Value::Text(self.style)],
    {
        vec![Value::Text(self.name), Value::Text(self.style)]
    }
}

/// The payload that replaces a whole row of a vector style; `style` a JSON document, key first.
pub struct VectorStyleChangeset {
    pub id: i32,
    pub name: String,
    pub style: String,
}

impl VectorStyleChangeset {
    /// The column values, in the entity's column order.
    pub fn into_payload(self) -> (r: Vec<Value>)
        ensures
            r@ == seq![Value::Int(self.id as i64), Value::Text(self.name), Value::Text(self.style)],
    {
        vec![Value::Int(self.id as i64), Value::Text(self.name), Value::Text(self.style)]
    }
}

/// The registry of the movie database; its declarations are valid, so building never fails.
pub fn movie_registry() -> (r: Registry)
    ensures
        r.wf(),
        movie_declared(r.entities@),
{
    match Registry::build(movie_schema()) {
        Ok(reg) => reg,
        Err(_) => {
            assert(false);
            Registry { entities: Vec::new(), links: Vec::new() }
        },
    }
}

/// An episode of the saga, stored as a small integer.
#[derive(Debug, Clone, Copy, PartialEq, Eq, Structural, Hash)]
pub enum Episode {
    NEWHOPE,
    EMPIRE,
    JEDI,
}

impl Episode {
    pub open spec fn code(&self) -> i16 {
        match self {
            Episode::NEWHOPE => 1,
            Episode::EMPIRE => 2,
            Episode::JEDI => 3,
        }
    }

    /// The stored form of the episode.
    pub fn to_sql(&self) -> (r: i16)
        ensures
            r == self.code(),
    {
        match self {
            Episode::NEWHOPE => 1,
            Episode::EMPIRE => 2,
            Episode::JEDI => 3,
        }
    }

    /// The episode stored as `v`; none for a value that names no episode.
    pub fn from_sql(v: i16) -> (r: Option<Episode>)
        ensures
            r matches Some(e) ==> e.code() == v,
            r is None <==> !(1 <= v <= 3),
    {
        match v {
            1 => Some(Episode::NEWHOPE),
            2 => Some(Episode::EMPIRE),
            3 => Some(Episode::JEDI),
            _ => None,
        }
    }
}

} // verus!
