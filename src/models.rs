use vstd::prelude::*;

use crate::json::{
    field, get_field, has_keys, is_named_records_form, is_opt_pairs_form, is_opt_records_form,
    is_opt_strings_form, is_records_form, is_strings_form, key_at, lemma_field_of_distinct_keys,
    lemma_named_records_round_trip, lemma_opt_pairs_round_trip, lemma_opt_records_round_trip,
    lemma_opt_strings_round_trip, lemma_record_round_trip, lemma_records_round_trip,
    lemma_strings_round_trip, named_records_json, named_records_value, named_views, opt_bool_form,
    opt_bool_json, opt_bool_value, opt_pairs_json, opt_pairs_value, opt_records_json,
    opt_records_value, opt_seq, opt_strings_json, opt_strings_value, opt_text_form, opt_text_json,
    opt_text_value, opt_u16_form, opt_u16_json, opt_u16_value, opt_views, read_named_records,
    read_opt_bool, read_opt_pairs, read_opt_records, read_opt_strings, read_opt_text, read_opt_u16,
    read_record, read_records, read_strings, read_text, read_u64, record_value, records_json,
    req_records_value, req_strings_value, strings_json, text_value, u64_value, value_at, views, Json,
    WireRecord,
};

verus! {

/// The library that a model runs on.
#[derive(Clone, Copy, Debug, PartialEq, Eq, Structural)]
pub enum ModelLibrary {
    OpenClip,
    SentenceTransformers,
    Timm,
}

impl ModelLibrary {
    /// The token that stands for the library on the wire.
    pub open spec fn token(self) -> Seq<char> {
        match self {
            ModelLibrary::OpenClip => "open_clip"@,
            ModelLibrary::SentenceTransformers => "sentence_transformers"@,
            ModelLibrary::Timm => "timm"@,
        }
    }

    /// The library that a token stands for.
    pub open spec fn from_token(t: Seq<char>) -> Option<ModelLibrary> {
        if t == "open_clip"@ {
            Some(ModelLibrary::OpenClip)
        } else if t == "sentence_transformers"@ {
            Some(ModelLibrary::SentenceTransformers)
        } else if t == "timm"@ {
            Some(ModelLibrary::Timm)
        } else {
            None
        }
    }

    pub fn wire_token(&self) -> (r: &'static str)
        ensures
            r@ == self.token(),
    {
        match self {
            ModelLibrary::OpenClip => "open_clip",
            ModelLibrary::SentenceTransformers => "sentence_transformers",
            ModelLibrary::Timm => "timm",
        }
    }

    pub fn from_wire_token(t: &String) -> (r: Option<ModelLibrary>)
        ensures
            r == Self::from_token(t@),
    {
        if *t == String::from_str("open_clip") {
            Some(ModelLibrary::OpenClip)
        } else if *t == String::from_str("sentence_transformers") {
            Some(ModelLibrary::SentenceTransformers)
        } else if *t == String::from_str("timm") {
            Some(ModelLibrary::Timm)
        } else {
            None
        }
    }
}

/// Each library reads back from its own token.
pub proof fn lemma_library_token_round_trip(l: ModelLibrary)
    ensures
        ModelLibrary::from_token(l.token()) == Some(l),
{
    reveal_strlit("open_clip");
    reveal_strlit("sentence_transformers");
    reveal_strlit("timm");
    assert("open_clip"@.len() != "sentence_transformers"@.len());
    assert("open_clip"@.len() != "timm"@.len());
    assert("sentence_transformers"@.len() != "timm"@.len());
}

/// A member that names a library by its token.
pub open spec fn library_value(f: Option<Json>) -> Option<ModelLibrary> {
    match f {
        Some(Json::Text(s)) => ModelLibrary::from_token(s@),
        _ => None,
    }
}

pub open spec fn is_library_form(l: ModelLibrary, j: Json) -> bool {
    j is Text && j->Text_0@ == l.token()
}

fn library_json(l: ModelLibrary) -> (r: Json)
    ensures
        is_library_form(l, r),
{
    Json::Text(String::from_str(l.wire_token()))
}

fn read_library(obj: &Json, key: &str) -> (r: Option<ModelLibrary>)
    ensures
        r == library_value(field(*obj, key@)),
{
    match get_field(obj, key) {
        Some(Json::Text(s)) => ModelLibrary::from_wire_token(s),
        _ => None,
    }
}

proof fn lemma_library_round_trip(l: ModelLibrary, j: Json)
    requires
        is_library_form(l, j),
    ensures
        library_value(Some(j)) == Some(l),
{
    lemma_library_token_round_trip(l);
}

/// A request to embed texts, images or both in one call.
#[derive(Debug)]
pub struct EmbeddingRequest {
    /// The model to use.
    pub name: String,
    /// The texts to embed, if any.
    pub text: Option<Vec<String>>,
    /// The images to embed, by address, if any.
    pub image: Option<Vec<String>>,
    /// Whether to normalise the embeddings.
    pub normalize: Option<bool>,
    /// The number of dimensions to keep.
    pub n_dims: Option<u16>,
    /// Headers to send when the server downloads the images.
    pub image_download_headers: Option<Vec<(String, String)>>,
}

impl View for EmbeddingRequest {
    type V = (String, Option<Seq<String>>, Option<Seq<String>>, Option<bool>, Option<u16>, Option<Seq<(String, String)>>);

    open spec fn view(&self) -> (String, Option<Seq<String>>, Option<Seq<String>>, Option<bool>, Option<u16>, Option<Seq<(String, String)>>) {
        (self.name, opt_seq(self.text), opt_seq(self.image), self.normalize, self.n_dims, opt_seq(self.image_download_headers))
    }
}

impl EmbeddingRequest {
    /// The names of the members on the wire, in the order in which they are written.
    pub open spec fn wire_keys() -> Seq<Seq<char>> {
        seq!["name"@, "text"@, "image"@, "normalize"@, "nDims"@, "imageDownloadHeaders"@]
    }
}

impl WireRecord for EmbeddingRequest {
    /// An object with one member per field, in this order.
    open spec fn is_wire_form(&self, j: Json) -> bool {
        &&& has_keys(j, Self::wire_keys())
        &&& value_at(j, 0) == Json::Text(self.name)
        &&& is_opt_strings_form(opt_seq(self.text), value_at(j, 1))
        &&& is_opt_strings_form(opt_seq(self.image), value_at(j, 2))
        &&& value_at(j, 3) == opt_bool_form(self.normalize)
        &&& value_at(j, 4) == opt_u16_form(self.n_dims)
        &&& is_opt_pairs_form(opt_seq(self.image_download_headers), value_at(j, 5))
    }

    open spec fn read_spec(j: Json) -> Option<(String, Option<Seq<String>>, Option<Seq<String>>, Option<bool>, Option<u16>, Option<Seq<(String, String)>>)> {
        let name = text_value(field(j, "name"@));
        let text = opt_strings_value(field(j, "text"@));
        let image = opt_strings_value(field(j, "image"@));
        let normalize = opt_bool_value(field(j, "normalize"@));
        let n_dims = opt_u16_value(field(j, "nDims"@));
        let image_download_headers = opt_pairs_value(field(j, "imageDownloadHeaders"@));
        if name is Some && text is Some && image is Some && normalize is Some && n_dims is Some && image_download_headers is Some {
            Some((name->0, text->0, image->0, normalize->0, n_dims->0, image_download_headers->0))
        } else {
            None
        }
    }

    fn to_json(&self) -> (j: Json) {
        let mut members: Vec<(String, Json)> = Vec::new();
        members.push((String::from_str("name"), Json::Text(self.name.clone())));
        members.push((String::from_str("text"), opt_strings_json(&self.text)));
        members.push((String::from_str("image"), opt_strings_json(&self.image)));
        members.push((String::from_str("normalize"), opt_bool_json(self.normalize)));
        members.push((String::from_str("nDims"), opt_u16_json(self.n_dims)));
        members.push((String::from_str("imageDownloadHeaders"), opt_pairs_json(&self.image_download_headers)));
        let j = Json::Object(members);
        proof {
            assert(key_at(j, 0) == Self::wire_keys()[0]);
            assert(key_at(j, 1) == Self::wire_keys()[1]);
            assert(key_at(j, 2) == Self::wire_keys()[2]);
            assert(key_at(j, 3) == Self::wire_keys()[3]);
            assert(key_at(j, 4) == Self::wire_keys()[4]);
            assert(key_at(j, 5) == Self::wire_keys()[5]);
        }
        j
    }

    fn from_json(j: &Json) -> (r: Option<Self>) {
        let name = match read_text(j, "name") {
            Some(v) => v,
            None => return None,
        };
        let text = match read_opt_strings(j, "text") {
            Some(v) => v,
            None => return None,
        };
        let image = match read_opt_strings(j, "image") {
            Some(v) => v,
            None => return None,
        };
        let normalize = match read_opt_bool(j, "normalize") {
            Some(v) => v,
            None => return None,
        };
        let n_dims = match read_opt_u16(j, "nDims") {
            Some(v) => v,
            None => return None,
        };
        let image_download_headers = match read_opt_pairs(j, "imageDownloadHeaders") {
            Some(v) => v,
            None => return None,
        };
        Some(EmbeddingRequest { name, text, image, normalize, n_dims, image_download_headers })
    }

    proof fn lemma_round_trip(r: Self, j: Json) {
        reveal_strlit("name");
        reveal_strlit("text");
        reveal_strlit("image");
        reveal_strlit("normalize");
        reveal_strlit("nDims");
        reveal_strlit("imageDownloadHeaders");
        let keys = EmbeddingRequest::wire_keys();
        assert forall|a: int, b: int| 0 <= a < b < keys.len() implies keys[a] != keys[b] by {
            assert(keys[0][0] != keys[1][0]);
            assert(keys[0].len() != keys[2].len());
            assert(keys[0].len() != keys[3].len());
            assert(keys[0].len() != keys[4].len());
            assert(keys[0].len() != keys[5].len());
            assert(keys[1].len() != keys[2].len());
            assert(keys[1].len() != keys[3].len());
            assert(keys[1].len() != keys[4].len());
            assert(keys[1].len() != keys[5].len());
            assert(keys[2].len() != keys[3].len());
            assert(keys[2][0] != keys[4][0]);
            assert(keys[2].len() != keys[5].len());
            assert(keys[3].len() != keys[4].len());
            assert(keys[3].len() != keys[5].len());
            assert(keys[4].len() != keys[5].len());
            assert(a == 0 || a == 1 || a == 2 || a == 3 || a == 4 || a == 5);
            assert(b == 0 || b == 1 || b == 2 || b == 3 || b == 4 || b == 5);
        }
        lemma_field_of_distinct_keys(j, keys, 0);
        lemma_field_of_distinct_keys(j, keys, 1);
        lemma_opt_strings_round_trip(opt_seq(r.text), value_at(j, 1));
        lemma_field_of_distinct_keys(j, keys, 2);
        lemma_opt_strings_round_trip(opt_seq(r.image), value_at(j, 2));
        lemma_field_of_distinct_keys(j, keys, 3);
        lemma_field_of_distinct_keys(j, keys, 4);
        lemma_field_of_distinct_keys(j, keys, 5);
        lemma_opt_pairs_round_trip(opt_seq(r.image_download_headers), value_at(j, 5));
    }
}

/// A request to embed texts.
#[derive(Debug)]
pub struct TextEmbeddingRequest {
    /// The model to use.
    pub name: String,
    /// The texts to embed.
    pub text: Vec<String>,
    /// Whether to normalise the embeddings.
    pub normalize: Option<bool>,
    /// The number of dimensions to keep.
    pub n_dims: Option<u16>,
}

impl View for TextEmbeddingRequest {
    type V = (String, Seq<String>, Option<bool>, Option<u16>);

    open spec fn view(&self) -> (String, Seq<String>, Option<bool>, Option<u16>) {
        (self.name, self.text@, self.normalize, self.n_dims)
    }
}

impl TextEmbeddingRequest {
    /// The names of the members on the wire, in the order in which they are written.
    pub open spec fn wire_keys() -> Seq<Seq<char>> {
        seq!["name"@, "text"@, "normalize"@, "nDims"@]
    }
}

impl WireRecord for TextEmbeddingRequest {
    /// An object with one member per field, in this order.
    open spec fn is_wire_form(&self, j: Json) -> bool {
        &&& has_keys(j, Self::wire_keys())
        &&& value_at(j, 0) == Json::Text(self.name)
        &&& is_strings_form(self.text@, value_at(j, 1))
        &&& value_at(j, 2) == opt_bool_form(self.normalize)
        &&& value_at(j, 3) == opt_u16_form(self.n_dims)
    }

    open spec fn read_spec(j: Json) -> Option<(String, Seq<String>, Option<bool>, Option<u16>)> {
        let name = text_value(field(j, "name"@));
        let text = req_strings_value(field(j, "text"@));
        let normalize = opt_bool_value(field(j, "normalize"@));
        let n_dims = opt_u16_value(field(j, "nDims"@));
        if name is Some && text is Some && normalize is Some && n_dims is Some {
            Some((name->0, text->0, normalize->0, n_dims->0))
        } else {
            None
        }
    }

    fn to_json(&self) -> (j: Json) {
        let mut members: Vec<(String, Json)> = Vec::new();
        members.push((String::from_str("name"), Json::Text(self.name.clone())));
        members.push((String::from_str("text"), strings_json(&self.text)));
        members.push((String::from_str("normalize"), opt_bool_json(self.normalize)));
        members.push((String::from_str("nDims"), opt_u16_json(self.n_dims)));
        let j = Json::Object(members);
        proof {
            assert(key_at(j, 0) == Self::wire_keys()[0]);
            assert(key_at(j, 1) == Self::wire_keys()[1]);
            assert(key_at(j, 2) == Self::wire_keys()[2]);
            assert(key_at(j, 3) == Self::wire_keys()[3]);
        }
        j
    }

    fn from_json(j: &Json) -> (r: Option<Self>) {
        let name = match read_text(j, "name") {
            Some(v) => v,
            None => return None,
        };
        let text = match read_strings(j, "text") {
            Some(v) => v,
            None => return None,
        };
        let normalize = match read_opt_bool(j, "normalize") {
            Some(v) => v,
            None => return None,
        };
        let n_dims = match read_opt_u16(j, "nDims") {
            Some(v) => v,
            None => return None,
        };
        Some(TextEmbeddingRequest { name, text, normalize, n_dims })
    }

    proof fn lemma_round_trip(r: Self, j: Json) {
        reveal_strlit("name");
        reveal_strlit("text");
        reveal_strlit("normalize");
        reveal_strlit("nDims");
        let keys = TextEmbeddingRequest::wire_keys();
        assert forall|a: int, b: int| 0 <= a < b < keys.len() implies keys[a] != keys[b] by {
            assert(keys[0][0] != keys[1][0]);
            assert(keys[0].len() != keys[2].len());
            assert(keys[0].len() != keys[3].len());
            assert(keys[1].len() != keys[2].len());
            assert(keys[1].len() != keys[3].len());
            assert(keys[2].len() != keys[3].len());
            assert(a == 0 || a == 1 || a == 2 || a == 3);
            assert(b == 0 || b == 1 || b == 2 || b == 3);
        }
        lemma_field_of_distinct_keys(j, keys, 0);
        lemma_field_of_distinct_keys(j, keys, 1);
        lemma_strings_round_trip(r.text@, value_at(j, 1));
        lemma_field_of_distinct_keys(j, keys, 2);
        lemma_field_of_distinct_keys(j, keys, 3);
    }
}

/// A request to embed images.
#[derive(Debug)]
pub struct ImageEmbeddingRequest {
    /// The model to use.
    pub name: String,
    /// The images to embed, by address.
    pub image: Vec<String>,
    /// Whether to normalise the embeddings.
    pub normalize: Option<bool>,
    /// The number of dimensions to keep.
    pub n_dims: Option<u16>,
    /// Headers to send when the server downloads the images.
    pub image_download_headers: Option<Vec<(String, String)>>,
}

impl View for ImageEmbeddingRequest {
    type V = (String, Seq<String>, Option<bool>, Option<u16>, Option<Seq<(String, String)>>);

    open spec fn view(&self) -> (String, Seq<String>, Option<bool>, Option<u16>, Option<Seq<(String, String)>>) {
        (self.name, self.image@, self.normalize, self.n_dims, opt_seq(self.image_download_headers))
    }
}

impl ImageEmbeddingRequest {
    /// The names of the members on the wire, in the order in which they are written.
    pub open spec fn wire_keys() -> Seq<Seq<char>> {
        seq!["name"@, "image"@, "normalize"@, "nDims"@, "imageDownloadHeaders"@]
    }
}

impl WireRecord for ImageEmbeddingRequest {
    /// An object with one member per field, in this order.
    open spec fn is_wire_form(&self, j: Json) -> bool {
        &&& has_keys(j, Self::wire_keys())
        &&& value_at(j, 0) == Json::Text(self.name)
        &&& is_strings_form(self.image@, value_at(j, 1))
        &&& value_at(j, 2) == opt_bool_form(self.normalize)
        &&& value_at(j, 3) == opt_u16_form(self.n_dims)
        &&& is_opt_pairs_form(opt_seq(self.image_download_headers), value_at(j, 4))
    }

    open spec fn read_spec(j: Json) -> Option<(String, Seq<String>, Option<bool>, Option<u16>, Option<Seq<(String, String)>>)> {
        let name = text_value(field(j, "name"@));
        let image = req_strings_value(field(j, "image"@));
        let normalize = opt_bool_value(field(j, "normalize"@));
        let n_dims = opt_u16_value(field(j, "nDims"@));
        let image_download_headers = opt_pairs_value(field(j, "imageDownloadHeaders"@));
        if name is Some && image is Some && normalize is Some && n_dims is Some && image_download_headers is Some {
            Some((name->0, image->0, normalize->0, n_dims->0, image_download_headers->0))
        } else {
            None
        }
    }

    fn to_json(&self) -> (j: Json) {
        let mut members: Vec<(String, Json)> = Vec::new();
        members.push((String::from_str("name"), Json::Text(self.name.clone())));
        members.push((String::from_str("image"), strings_json(&self.image)));
        members.push((String::from_str("normalize"), opt_bool_json(self.normalize)));
        members.push((String::from_str("nDims"), opt_u16_json(self.n_dims)));
        members.push((String::from_str("imageDownloadHeaders"), opt_pairs_json(&self.image_download_headers)));
        let j = Json::Object(members);
        proof {
            assert(key_at(j, 0) == Self::wire_keys()[0]);
            assert(key_at(j, 1) == Self::wire_keys()[1]);
            assert(key_at(j, 2) == Self::wire_keys()[2]);
            assert(key_at(j, 3) == Self::wire_keys()[3]);
            assert(key_at(j, 4) == Self::wire_keys()[4]);
        }
        j
    }

    fn from_json(j: &Json) -> (r: Option<Self>) {
        let name = match read_text(j, "name") {
            Some(v) => v,
            None => return None,
        };
        let image = match read_strings(j, "image") {
            Some(v) => v,
            None => return None,
        };
        let normalize = match read_opt_bool(j, "normalize") {
            Some(v) => v,
            None => return None,
        };
        let n_dims = match read_opt_u16(j, "nDims") {
            Some(v) => v,
            None => return None,
        };
        let image_download_headers = match read_opt_pairs(j, "imageDownloadHeaders") {
            Some(v) => v,
            None => return None,
        };
        Some(ImageEmbeddingRequest { name, image, normalize, n_dims, image_download_headers })
    }

    proof fn lemma_round_trip(r: Self, j: Json) {
        reveal_strlit("name");
        reveal_strlit("image");
        reveal_strlit("normalize");
        reveal_strlit("nDims");
        reveal_strlit("imageDownloadHeaders");
        let keys = ImageEmbeddingRequest::wire_keys();
        assert forall|a: int, b: int| 0 <= a < b < keys.len() implies keys[a] != keys[b] by {
            assert(keys[0].len() != keys[1].len());
            assert(keys[0].len() != keys[2].len());
            assert(keys[0].len() != keys[3].len());
            assert(keys[0].len() != keys[4].len());
            assert(keys[1].len() != keys[2].len());
            assert(keys[1][0] != keys[3][0]);
            assert(keys[1].len() != keys[4].len());
            assert(keys[2].len() != keys[3].len());
            assert(keys[2].len() != keys[4].len());
            assert(keys[3].len() != keys[4].len());
            assert(a == 0 || a == 1 || a == 2 || a == 3 || a == 4);
            assert(b == 0 || b == 1 || b == 2 || b == 3 || b == 4);
        }
        lemma_field_of_distinct_keys(j, keys, 0);
        lemma_field_of_distinct_keys(j, keys, 1);
        lemma_strings_round_trip(r.image@, value_at(j, 1));
        lemma_field_of_distinct_keys(j, keys, 2);
        lemma_field_of_distinct_keys(j, keys, 3);
        lemma_field_of_distinct_keys(j, keys, 4);
        lemma_opt_pairs_round_trip(opt_seq(r.image_download_headers), value_at(j, 4));
    }
}

/// A request to classify images.
#[derive(Debug)]
pub struct ImageClassificationRequest {
    /// The model to use.
    pub name: String,
    /// The images to classify, by address.
    pub image: Vec<String>,
    /// Headers to send when the server downloads the images.
    pub image_download_headers: Option<Vec<(String, String)>>,
}

impl View for ImageClassificationRequest {
    type V = (String, Seq<String>, Option<Seq<(String, String)>>);

    open spec fn view(&self) -> (String, Seq<String>, Option<Seq<(String, String)>>) {
        (self.name, self.image@, opt_seq(self.image_download_headers))
    }
}

impl ImageClassificationRequest {
    /// The names of the members on the wire, in the order in which they are written.
    pub open spec fn wire_keys() -> Seq<Seq<char>> {
        seq!["name"@, "image"@, "imageDownloadHeaders"@]
    }
}

impl WireRecord for ImageClassificationRequest {
    /// An object with one member per field, in this order.
    open spec fn is_wire_form(&self, j: Json) -> bool {
        &&& has_keys(j, Self::wire_keys())
        &&& value_at(j, 0) == Json::Text(self.name)
        &&& is_strings_form(self.image@, value_at(j, 1))
        &&& is_opt_pairs_form(opt_seq(self.image_download_headers), value_at(j, 2))
    }

    open spec fn read_spec(j: Json) -> Option<(String, Seq<String>, Option<Seq<(String, String)>>)> {
        let name = text_value(field(j, "name"@));
        let image = req_strings_value(field(j, "image"@));
        let image_download_headers = opt_pairs_value(field(j, "imageDownloadHeaders"@));
        if name is Some && image is Some && image_download_headers is Some {
            Some((name->0, image->0, image_download_headers->0))
        } else {
            None
        }
    }

    fn to_json(&self) -> (j: Json) {
        let mut members: Vec<(String, Json)> = Vec::new();
        members.push((String::from_str("name"), Json::Text(self.name.clone())));
        members.push((String::from_str("image"), strings_json(&self.image)));
        members.push((String::from_str("imageDownloadHeaders"), opt_pairs_json(&self.image_download_headers)));
        let j = Json::Object(members);
        proof {
            assert(key_at(j, 0) == Self::wire_keys()[0]);
            assert(key_at(j, 1) == Self::wire_keys()[1]);
            assert(key_at(j, 2) == Self::wire_keys()[2]);
        }
        j
    }

    fn from_json(j: &Json) -> (r: Option<Self>) {
        let name = match read_text(j, "name") {
            Some(v) => v,
            None => return None,
        };
        let image = match read_strings(j, "image") {
            Some(v) => v,
            None => return None,
        };
        let image_download_headers = match read_opt_pairs(j, "imageDownloadHeaders") {
            Some(v) => v,
            None => return None,
        };
        Some(ImageClassificationRequest { name, image, image_download_headers })
    }

    proof fn lemma_round_trip(r: Self, j: Json) {
        reveal_strlit("name");
        reveal_strlit("image");
        reveal_strlit("imageDownloadHeaders");
        let keys = ImageClassificationRequest::wire_keys();
        assert forall|a: int, b: int| 0 <= a < b < keys.len() implies keys[a] != keys[b] by {
            assert(keys[0].len() != keys[1].len());
            assert(keys[0].len() != keys[2].len());
            assert(keys[1].len() != keys[2].len());
            assert(a == 0 || a == 1 || a == 2);
            assert(b == 0 || b == 1 || b == 2);
        }
        lemma_field_of_distinct_keys(j, keys, 0);
        lemma_field_of_distinct_keys(j, keys, 1);
        lemma_strings_round_trip(r.image@, value_at(j, 1));
        lemma_field_of_distinct_keys(j, keys, 2);
        lemma_opt_pairs_round_trip(opt_seq(r.image_download_headers), value_at(j, 2));
    }
}

/// A request to load a model.
#[derive(Debug)]
pub struct LoadModelRequest {
    pub name: String,
    pub library: ModelLibrary,
}

impl View for LoadModelRequest {
    type V = (String, ModelLibrary);

    open spec fn view(&self) -> (String, ModelLibrary) {
        (self.name, self.library)
    }
}

impl LoadModelRequest {
    /// The names of the members on the wire, in the order in which they are written.
    pub open spec fn wire_keys() -> Seq<Seq<char>> {
        seq!["name"@, "library"@]
    }
}

impl WireRecord for LoadModelRequest {
    /// An object with one member per field, in this order.
    open spec fn is_wire_form(&self, j: Json) -> bool {
        &&& has_keys(j, Self::wire_keys())
        &&& value_at(j, 0) == Json::Text(self.name)
        &&& is_library_form(self.library, value_at(j, 1))
    }

    open spec fn read_spec(j: Json) -> Option<(String, ModelLibrary)> {
        let name = text_value(field(j, "name"@));
        let library = library_value(field(j, "library"@));
        if name is Some && library is Some {
            Some((name->0, library->0))
        } else {
            None
        }
    }

    fn to_json(&self) -> (j: Json) {
        let mut members: Vec<(String, Json)> = Vec::new();
        members.push((String::from_str("name"), Json::Text(self.name.clone())));
        members.push((String::from_str("library"), library_json(self.library)));
        let j = Json::Object(members);
        proof {
            assert(key_at(j, 0) == Self::wire_keys()[0]);
            assert(key_at(j, 1) == Self::wire_keys()[1]);
        }
        j
    }

    fn from_json(j: &Json) -> (r: Option<Self>) {
        let name = match read_text(j, "name") {
            Some(v) => v,
            None => return None,
        };
        let library = match read_library(j, "library") {
            Some(v) => v,
            None => return None,
        };
        Some(LoadModelRequest { name, library })
    }

    proof fn lemma_round_trip(r: Self, j: Json) {
        reveal_strlit("name");
        reveal_strlit("library");
        let keys = LoadModelRequest::wire_keys();
        assert forall|a: int, b: int| 0 <= a < b < keys.len() implies keys[a] != keys[b] by {
            assert(keys[0].len() != keys[1].len());
            assert(a == 0 || a == 1);
            assert(b == 0 || b == 1);
        }
        lemma_field_of_distinct_keys(j, keys, 0);
        lemma_field_of_distinct_keys(j, keys, 1);
        lemma_library_round_trip(r.library, value_at(j, 1));
    }
}

/// A request to unload or delete a model.
#[derive(Debug)]
pub struct UnloadModelRequest {
    pub name: String,
}

impl View for UnloadModelRequest {
    type V = String;

    open spec fn view(&self) -> String {
        self.name
    }
}

impl UnloadModelRequest {
    /// The names of the members on the wire, in the order in which they are written.
    pub open spec fn wire_keys() -> Seq<Seq<char>> {
        seq!["name"@]
    }
}

impl WireRecord for UnloadModelRequest {
    /// An object with one member per field, in this order.
    open spec fn is_wire_form(&self, j: Json) -> bool {
        &&& has_keys(j, Self::wire_keys())
        &&& value_at(j, 0) == Json::Text(self.name)
    }

    open spec fn read_spec(j: Json) -> Option<String> {
        let name = text_value(field(j, "name"@));
        if name is Some {
            Some(name->0)
        } else {
            None
        }
    }

    fn to_json(&self) -> (j: Json) {
        let mut members: Vec<(String, Json)> = Vec::new();
        members.push((String::from_str("name"), Json::Text(self.name.clone())));
        let j = Json::Object(members);
        proof {
            assert(key_at(j, 0) == Self::wire_keys()[0]);
        }
        j
    }

    fn from_json(j: &Json) -> (r: Option<Self>) {
        let name = match read_text(j, "name") {
            Some(v) => v,
            None => return None,
        };
        Some(UnloadModelRequest { name })
    }

    proof fn lemma_round_trip(r: Self, j: Json) {
        reveal_strlit("name");
        let keys = UnloadModelRequest::wire_keys();
        lemma_field_of_distinct_keys(j, keys, 0);
    }
}

/// The query of a lookup of a model's metadata.
#[derive(Debug)]
pub struct ModelMetadataRequest {
    pub name: String,
}

impl View for ModelMetadataRequest {
    type V = String;

    open spec fn view(&self) -> String {
        self.name
    }
}

impl ModelMetadataRequest {
    /// The names of the members on the wire, in the order in which they are written.
    pub open spec fn wire_keys() -> Seq<Seq<char>> {
        seq!["name"@]
    }
}

impl WireRecord for ModelMetadataRequest {
    /// An object with one member per field, in this order.
    open spec fn is_wire_form(&self, j: Json) -> bool {
        &&& has_keys(j, Self::wire_keys())
        &&& value_at(j, 0) == Json::Text(self.name)
    }

    open spec fn read_spec(j: Json) -> Option<String> {
        let name = text_value(field(j, "name"@));
        if name is Some {
            Some(name->0)
        } else {
            None
        }
    }

    fn to_json(&self) -> (j: Json) {
        let mut members: Vec<(String, Json)> = Vec::new();
        members.push((String::from_str("name"), Json::Text(self.name.clone())));
        let j = Json::Object(members);
        proof {
            assert(key_at(j, 0) == Self::wire_keys()[0]);
        }
        j
    }

    fn from_json(j: &Json) -> (r: Option<Self>) {
        let name = match read_text(j, "name") {
            Some(v) => v,
            None => return None,
        };
        Some(ModelMetadataRequest { name })
    }

    proof fn lemma_round_trip(r: Self, j: Json) {
        reveal_strlit("name");
        let keys = ModelMetadataRequest::wire_keys();
        lemma_field_of_distinct_keys(j, keys, 0);
    }
}

/// A reply that carries a message.
#[derive(Debug)]
pub struct GenericMessageResponse {
    pub message: String,
}

impl View for GenericMessageResponse {
    type V = String;

    open spec fn view(&self) -> String {
        self.message
    }
}

impl GenericMessageResponse {
    /// The names of the members on the wire, in the order in which they are written.
    pub open spec fn wire_keys() -> Seq<Seq<char>> {
        seq!["message"@]
    }
}

impl WireRecord for GenericMessageResponse {
    /// An object with one member per field, in this order.
    open spec fn is_wire_form(&self, j: Json) -> bool {
        &&& has_keys(j, Self::wire_keys())
        &&& value_at(j, 0) == Json::Text(self.message)
    }

    open spec fn read_spec(j: Json) -> Option<String> {
        let message = text_value(field(j, "message"@));
        if message is Some {
            Some(message->0)
        } else {
            None
        }
    }

    fn to_json(&self) -> (j: Json) {
        let mut members: Vec<(String, Json)> = Vec::new();
        members.push((String::from_str("message"), Json::Text(self.message.clone())));
        let j = Json::Object(members);
        proof {
            assert(key_at(j, 0) == Self::wire_keys()[0]);
        }
        j
    }

    fn from_json(j: &Json) -> (r: Option<Self>) {
        let message = match read_text(j, "message") {
            Some(v) => v,
            None => return None,
        };
        Some(GenericMessageResponse { message })
    }

    proof fn lemma_round_trip(r: Self, j: Json) {
        reveal_strlit("message");
        let keys = GenericMessageResponse::wire_keys();
        lemma_field_of_distinct_keys(j, keys, 0);
    }
}

/// A model that the model server has loaded.
#[derive(Debug)]
pub struct LoadedModel {
    pub name: String,
    pub library: ModelLibrary,
}

impl View for LoadedModel {
    type V = (String, ModelLibrary);

    open spec fn view(&self) -> (String, ModelLibrary) {
        (self.name, self.library)
    }
}

impl LoadedModel {
    /// The names of the members on the wire, in the order in which they are written.
    pub open spec fn wire_keys() -> Seq<Seq<char>> {
        seq!["name"@, "library"@]
    }
}

impl WireRecord for LoadedModel {
    /// An object with one member per field, in this order.
    open spec fn is_wire_form(&self, j: Json) -> bool {
        &&& has_keys(j, Self::wire_keys())
        &&& value_at(j, 0) == Json::Text(self.name)
        &&& is_library_form(self.library, value_at(j, 1))
    }

    open spec fn read_spec(j: Json) -> Option<(String, ModelLibrary)> {
        let name = text_value(field(j, "name"@));
        let library = library_value(field(j, "library"@));
        if name is Some && library is Some {
            Some((name->0, library->0))
        } else {
            None
        }
    }

    fn to_json(&self) -> (j: Json) {
        let mut members: Vec<(String, Json)> = Vec::new();
        members.push((String::from_str("name"), Json::Text(self.name.clone())));
        members.push((String::from_str("library"), library_json(self.library)));
        let j = Json::Object(members);
        proof {
            assert(key_at(j, 0) == Self::wire_keys()[0]);
            assert(key_at(j, 1) == Self::wire_keys()[1]);
        }
        j
    }

    fn from_json(j: &Json) -> (r: Option<Self>) {
        let name = match read_text(j, "name") {
            Some(v) => v,
            None => return None,
        };
        let library = match read_library(j, "library") {
            Some(v) => v,
            None => return None,
        };
        Some(LoadedModel { name, library })
    }

    proof fn lemma_round_trip(r: Self, j: Json) {
        reveal_strlit("name");
        reveal_strlit("library");
        let keys = LoadedModel::wire_keys();
        assert forall|a: int, b: int| 0 <= a < b < keys.len() implies keys[a] != keys[b] by {
            assert(keys[0].len() != keys[1].len());
            assert(a == 0 || a == 1);
            assert(b == 0 || b == 1);
        }
        lemma_field_of_distinct_keys(j, keys, 0);
        lemma_field_of_distinct_keys(j, keys, 1);
        lemma_library_round_trip(r.library, value_at(j, 1));
    }
}

/// A model of the model server's repository, with its state.
#[derive(Debug)]
pub struct RepositoryModel {
    pub name: String,
    pub state: String,
}

impl View for RepositoryModel {
    type V = (String, String);

    open spec fn view(&self) -> (String, String) {
        (self.name, self.state)
    }
}

impl RepositoryModel {
    /// The names of the members on the wire, in the order in which they are written.
    pub open spec fn wire_keys() -> Seq<Seq<char>> {
        seq!["name"@, "state"@]
    }
}

impl WireRecord for RepositoryModel {
    /// An object with one member per field, in this order.
    open spec fn is_wire_form(&self, j: Json) -> bool {
        &&& has_keys(j, Self::wire_keys())
        &&& value_at(j, 0) == Json::Text(self.name)
        &&& value_at(j, 1) == Json::Text(self.state)
    }

    open spec fn read_spec(j: Json) -> Option<(String, String)> {
        let name = text_value(field(j, "name"@));
        let state = text_value(field(j, "state"@));
        if name is Some && state is Some {
            Some((name->0, state->0))
        } else {
            None
        }
    }

    fn to_json(&self) -> (j: Json) {
        let mut members: Vec<(String, Json)> = Vec::new();
        members.push((String::from_str("name"), Json::Text(self.name.clone())));
        members.push((String::from_str("state"), Json::Text(self.state.clone())));
        let j = Json::Object(members);
        proof {
            assert(key_at(j, 0) == Self::wire_keys()[0]);
            assert(key_at(j, 1) == Self::wire_keys()[1]);
        }
        j
    }

    fn from_json(j: &Json) -> (r: Option<Self>) {
        let name = match read_text(j, "name") {
            Some(v) => v,
            None => return None,
        };
        let state = match read_text(j, "state") {
            Some(v) => v,
            None => return None,
        };
        Some(RepositoryModel { name, state })
    }

    proof fn lemma_round_trip(r: Self, j: Json) {
        reveal_strlit("name");
        reveal_strlit("state");
        let keys = RepositoryModel::wire_keys();
        assert forall|a: int, b: int| 0 <= a < b < keys.len() implies keys[a] != keys[b] by {
            assert(keys[0].len() != keys[1].len());
            assert(a == 0 || a == 1);
            assert(b == 0 || b == 1);
        }
        lemma_field_of_distinct_keys(j, keys, 0);
        lemma_field_of_distinct_keys(j, keys, 1);
    }
}

/// A counter of the inference metrics: how many, and for how long.
#[derive(Debug)]
pub struct InferenceStats {
    pub count: Option<String>,
    pub ns: Option<String>,
}

impl View for InferenceStats {
    type V = (Option<String>, Option<String>);

    open spec fn view(&self) -> (Option<String>, Option<String>) {
        (self.count, self.ns)
    }
}

impl InferenceStats {
    /// The names of the members on the wire, in the order in which they are written.
    pub open spec fn wire_keys() -> Seq<Seq<char>> {
        seq!["count"@, "ns"@]
    }
}

impl WireRecord for InferenceStats {
    /// An object with one member per field, in this order.
    open spec fn is_wire_form(&self, j: Json) -> bool {
        &&& has_keys(j, Self::wire_keys())
        &&& value_at(j, 0) == opt_text_form(self.count)
        &&& value_at(j, 1) == opt_text_form(self.ns)
    }

    open spec fn read_spec(j: Json) -> Option<(Option<String>, Option<String>)> {
        let count = opt_text_value(field(j, "count"@));
        let ns = opt_text_value(field(j, "ns"@));
        if count is Some && ns is Some {
            Some((count->0, ns->0))
        } else {
            None
        }
    }

    fn to_json(&self) -> (j: Json) {
        let mut members: Vec<(String, Json)> = Vec::new();
        members.push((String::from_str("count"), opt_text_json(&self.count)));
        members.push((String::from_str("ns"), opt_text_json(&self.ns)));
        let j = Json::Object(members);
        proof {
            assert(key_at(j, 0) == Self::wire_keys()[0]);
            assert(key_at(j, 1) == Self::wire_keys()[1]);
        }
        j
    }

    fn from_json(j: &Json) -> (r: Option<Self>) {
        let count = match read_opt_text(j, "count") {
            Some(v) => v,
            None => return None,
        };
        let ns = match read_opt_text(j, "ns") {
            Some(v) => v,
            None => return None,
        };
        Some(InferenceStats { count, ns })
    }

    proof fn lemma_round_trip(r: Self, j: Json) {
        reveal_strlit("count");
        reveal_strlit("ns");
        let keys = InferenceStats::wire_keys();
        assert forall|a: int, b: int| 0 <= a < b < keys.len() implies keys[a] != keys[b] by {
            assert(keys[0].len() != keys[1].len());
            assert(a == 0 || a == 1);
            assert(b == 0 || b == 1);
        }
        lemma_field_of_distinct_keys(j, keys, 0);
        lemma_field_of_distinct_keys(j, keys, 1);
    }
}

/// The class labels of a classification model.
#[derive(Debug)]
pub struct ModelClassificationLabelsResponse {
    pub labels: Vec<String>,
}

impl View for ModelClassificationLabelsResponse {
    type V = Seq<String>;

    open spec fn view(&self) -> Seq<String> {
        self.labels@
    }
}

impl ModelClassificationLabelsResponse {
    /// The names of the members on the wire, in the order in which they are written.
    pub open spec fn wire_keys() -> Seq<Seq<char>> {
        seq!["labels"@]
    }
}

impl WireRecord for ModelClassificationLabelsResponse {
    /// An object with one member per field, in this order.
    open spec fn is_wire_form(&self, j: Json) -> bool {
        &&& has_keys(j, Self::wire_keys())
        &&& is_strings_form(self.labels@, value_at(j, 0))
    }

    open spec fn read_spec(j: Json) -> Option<Seq<String>> {
        let labels = req_strings_value(field(j, "labels"@));
        if labels is Some {
            Some(labels->0)
        } else {
            None
        }
    }

    fn to_json(&self) -> (j: Json) {
        let mut members: Vec<(String, Json)> = Vec::new();
        members.push((String::from_str("labels"), strings_json(&self.labels)));
        let j = Json::Object(members);
        proof {
            assert(key_at(j, 0) == Self::wire_keys()[0]);
        }
        j
    }

    fn from_json(j: &Json) -> (r: Option<Self>) {
        let labels = match read_strings(j, "labels") {
            Some(v) => v,
            None => return None,
        };
        Some(ModelClassificationLabelsResponse { labels })
    }

    proof fn lemma_round_trip(r: Self, j: Json) {
        reveal_strlit("labels");
        let keys = ModelClassificationLabelsResponse::wire_keys();
        lemma_field_of_distinct_keys(j, keys, 0);
        lemma_strings_round_trip(r.labels@, value_at(j, 0));
    }
}

/// The size of a model's embeddings.
#[derive(Debug)]
pub struct ModelEmbeddingDimsResponse {
    pub embedding_size: u64,
}

impl View for ModelEmbeddingDimsResponse {
    type V = u64;

    open spec fn view(&self) -> u64 {
        self.embedding_size
    }
}

impl ModelEmbeddingDimsResponse {
    /// The names of the members on the wire, in the order in which they are written.
    pub open spec fn wire_keys() -> Seq<Seq<char>> {
        seq!["embeddingSize"@]
    }
}

impl WireRecord for ModelEmbeddingDimsResponse {
    /// An object with one member per field, in this order.
    open spec fn is_wire_form(&self, j: Json) -> bool {
        &&& has_keys(j, Self::wire_keys())
        &&& value_at(j, 0) == Json::Number(self.embedding_size)
    }

    open spec fn read_spec(j: Json) -> Option<u64> {
        let embedding_size = u64_value(field(j, "embeddingSize"@));
        if embedding_size is Some {
            Some(embedding_size->0)
        } else {
            None
        }
    }

    fn to_json(&self) -> (j: Json) {
        let mut members: Vec<(String, Json)> = Vec::new();
        members.push((String::from_str("embeddingSize"), Json::Number(self.embedding_size)));
        let j = Json::Object(members);
        proof {
            assert(key_at(j, 0) == Self::wire_keys()[0]);
        }
        j
    }

    fn from_json(j: &Json) -> (r: Option<Self>) {
        let embedding_size = match read_u64(j, "embeddingSize") {
            Some(v) => v,
            None => return None,
        };
        Some(ModelEmbeddingDimsResponse { embedding_size })
    }

    proof fn lemma_round_trip(r: Self, j: Json) {
        reveal_strlit("embeddingSize");
        let keys = ModelEmbeddingDimsResponse::wire_keys();
        lemma_field_of_distinct_keys(j, keys, 0);
    }
}

/// The models that the model server has loaded.
#[derive(Debug)]
pub struct LoadedModelResponse {
    pub models: Vec<LoadedModel>,
}

impl View for LoadedModelResponse {
    type V = Seq<<LoadedModel as View>::V>;

    open spec fn view(&self) -> Seq<<LoadedModel as View>::V> {
        views(self.models@)
    }
}

impl LoadedModelResponse {
    /// The names of the members on the wire, in the order in which they are written.
    pub open spec fn wire_keys() -> Seq<Seq<char>> {
        seq!["models"@]
    }
}

impl WireRecord for LoadedModelResponse {
    /// An object with one member per field, in this order.
    open spec fn is_wire_form(&self, j: Json) -> bool {
        &&& has_keys(j, Self::wire_keys())
        &&& is_records_form(self.models@, value_at(j, 0))
    }

    open spec fn read_spec(j: Json) -> Option<Seq<<LoadedModel as View>::V>> {
        let models = req_records_value::<LoadedModel>(field(j, "models"@));
        if models is Some {
            Some(models->0)
        } else {
            None
        }
    }

    fn to_json(&self) -> (j: Json) {
        let mut members: Vec<(String, Json)> = Vec::new();
        members.push((String::from_str("models"), records_json(&self.models)));
        let j = Json::Object(members);
        proof {
            assert(key_at(j, 0) == Self::wire_keys()[0]);
        }
        j
    }

    fn from_json(j: &Json) -> (r: Option<Self>) {
        let models = match read_records::<LoadedModel>(j, "models") {
            Some(v) => v,
            None => return None,
        };
        Some(LoadedModelResponse { models })
    }

    proof fn lemma_round_trip(r: Self, j: Json) {
        reveal_strlit("models");
        let keys = LoadedModelResponse::wire_keys();
        lemma_field_of_distinct_keys(j, keys, 0);
        lemma_records_round_trip(r.models@, value_at(j, 0));
    }
}

/// The models of the model server's repository.
#[derive(Debug)]
pub struct RepositoryModelResponse {
    pub models: Vec<RepositoryModel>,
}

impl View for RepositoryModelResponse {
    type V = Seq<<RepositoryModel as View>::V>;

    open spec fn view(&self) -> Seq<<RepositoryModel as View>::V> {
        views(self.models@)
    }
}

impl RepositoryModelResponse {
    /// The names of the members on the wire, in the order in which they are written.
    pub open spec fn wire_keys() -> Seq<Seq<char>> {
        seq!["models"@]
    }
}

impl WireRecord for RepositoryModelResponse {
    /// An object with one member per field, in this order.
    open spec fn is_wire_form(&self, j: Json) -> bool {
        &&& has_keys(j, Self::wire_keys())
        &&& is_records_form(self.models@, value_at(j, 0))
    }

    open spec fn read_spec(j: Json) -> Option<Seq<<RepositoryModel as View>::V>> {
        let models = req_records_value::<RepositoryModel>(field(j, "models"@));
        if models is Some {
            Some(models->0)
        } else {
            None
        }
    }

    fn to_json(&self) -> (j: Json) {
        let mut members: Vec<(String, Json)> = Vec::new();
        members.push((String::from_str("models"), records_json(&self.models)));
        let j = Json::Object(members);
        proof {
            assert(key_at(j, 0) == Self::wire_keys()[0]);
        }
        j
    }

    fn from_json(j: &Json) -> (r: Option<Self>) {
        let models = match read_records::<RepositoryModel>(j, "models") {
            Some(v) => v,
            None => return None,
        };
        Some(RepositoryModelResponse { models })
    }

    proof fn lemma_round_trip(r: Self, j: Json) {
        reveal_strlit("models");
        let keys = RepositoryModelResponse::wire_keys();
        lemma_field_of_distinct_keys(j, keys, 0);
        lemma_records_round_trip(r.models@, value_at(j, 0));
    }
}

/// The metrics of the batches of one size.
#[derive(Debug)]
pub struct BatchStats {
    pub batch_size: String,
    pub compute_input: InferenceStats,
    pub compute_infer: InferenceStats,
    pub compute_output: InferenceStats,
}

impl View for BatchStats {
    type V = (String, <InferenceStats as View>::V, <InferenceStats as View>::V, <InferenceStats as View>::V);

    open spec fn view(&self) -> (String, <InferenceStats as View>::V, <InferenceStats as View>::V, <InferenceStats as View>::V) {
        (self.batch_size, self.compute_input@, self.compute_infer@, self.compute_output@)
    }
}

impl BatchStats {
    /// The names of the members on the wire, in the order in which they are written.
    pub open spec fn wire_keys() -> Seq<Seq<char>> {
        seq!["batchSize"@, "computeInput"@, "computeInfer"@, "computeOutput"@]
    }
}

impl WireRecord for BatchStats {
    /// An object with one member per field, in this order.
    open spec fn is_wire_form(&self, j: Json) -> bool {
        &&& has_keys(j, Self::wire_keys())
        &&& value_at(j, 0) == Json::Text(self.batch_size)
        &&& self.compute_input.is_wire_form(value_at(j, 1))
        &&& self.compute_infer.is_wire_form(value_at(j, 2))
        &&& self.compute_output.is_wire_form(value_at(j, 3))
    }

    open spec fn read_spec(j: Json) -> Option<(String, <InferenceStats as View>::V, <InferenceStats as View>::V, <InferenceStats as View>::V)> {
        let batch_size = text_value(field(j, "batchSize"@));
        let compute_input = record_value::<InferenceStats>(field(j, "computeInput"@));
        let compute_infer = record_value::<InferenceStats>(field(j, "computeInfer"@));
        let compute_output = record_value::<InferenceStats>(field(j, "computeOutput"@));
        if batch_size is Some && compute_input is Some && compute_infer is Some && compute_output is Some {
            Some((batch_size->0, compute_input->0, compute_infer->0, compute_output->0))
        } else {
            None
        }
    }

    fn to_json(&self) -> (j: Json) {
        let mut members: Vec<(String, Json)> = Vec::new();
        members.push((String::from_str("batchSize"), Json::Text(self.batch_size.clone())));
        members.push((String::from_str("computeInput"), self.compute_input.to_json()));
        members.push((String::from_str("computeInfer"), self.compute_infer.to_json()));
        members.push((String::from_str("computeOutput"), self.compute_output.to_json()));
        let j = Json::Object(members);
        proof {
            assert(key_at(j, 0) == Self::wire_keys()[0]);
            assert(key_at(j, 1) == Self::wire_keys()[1]);
            assert(key_at(j, 2) == Self::wire_keys()[2]);
            assert(key_at(j, 3) == Self::wire_keys()[3]);
        }
        j
    }

    fn from_json(j: &Json) -> (r: Option<Self>) {
        let batch_size = match read_text(j, "batchSize") {
            Some(v) => v,
            None => return None,
        };
        let compute_input = match read_record::<InferenceStats>(j, "computeInput") {
            Some(v) => v,
            None => return None,
        };
        let compute_infer = match read_record::<InferenceStats>(j, "computeInfer") {
            Some(v) => v,
            None => return None,
        };
        let compute_output = match read_record::<InferenceStats>(j, "computeOutput") {
            Some(v) => v,
            None => return None,
        };
        Some(BatchStats { batch_size, compute_input, compute_infer, compute_output })
    }

    proof fn lemma_round_trip(r: Self, j: Json) {
        reveal_strlit("batchSize");
        reveal_strlit("computeInput");
        reveal_strlit("computeInfer");
        reveal_strlit("computeOutput");
        let keys = BatchStats::wire_keys();
        assert forall|a: int, b: int| 0 <= a < b < keys.len() implies keys[a] != keys[b] by {
            assert(keys[0].len() != keys[1].len());
            assert(keys[0].len() != keys[2].len());
            assert(keys[0].len() != keys[3].len());
            assert(keys[1][9] != keys[2][9]);
            assert(keys[1].len() != keys[3].len());
            assert(keys[2].len() != keys[3].len());
            assert(a == 0 || a == 1 || a == 2 || a == 3);
            assert(b == 0 || b == 1 || b == 2 || b == 3);
        }
        lemma_field_of_distinct_keys(j, keys, 0);
        lemma_field_of_distinct_keys(j, keys, 1);
        lemma_record_round_trip(r.compute_input, value_at(j, 1));
        lemma_field_of_distinct_keys(j, keys, 2);
        lemma_record_round_trip(r.compute_infer, value_at(j, 2));
        lemma_field_of_distinct_keys(j, keys, 3);
        lemma_record_round_trip(r.compute_output, value_at(j, 3));
    }
}

/// The metrics of one model.
#[derive(Debug)]
pub struct ModelStats {
    pub name: String,
    pub version: String,
    /// The counters by name, in the order in which the server lists them.
    pub inference_stats: Vec<(String, InferenceStats)>,
    pub last_inference: Option<String>,
    pub inference_count: Option<String>,
    pub execution_count: Option<String>,
    pub batch_stats: Option<Vec<BatchStats>>,
}

impl View for ModelStats {
    type V = (String, String, Seq<(String, <InferenceStats as View>::V)>, Option<String>, Option<String>, Option<String>, Option<Seq<<BatchStats as View>::V>>);

    open spec fn view(&self) -> (String, String, Seq<(String, <InferenceStats as View>::V)>, Option<String>, Option<String>, Option<String>, Option<Seq<<BatchStats as View>::V>>) {
        (self.name, self.version, named_views(self.inference_stats@), self.last_inference, self.inference_count, self.execution_count, opt_views(self.batch_stats))
    }
}

impl ModelStats {
    /// The names of the members on the wire, in the order in which they are written.
    pub open spec fn wire_keys() -> Seq<Seq<char>> {
        seq!["name"@, "version"@, "inferenceStats"@, "lastInference"@, "inferenceCount"@, "executionCount"@, "batchStats"@]
    }
}

impl WireRecord for ModelStats {
    /// An object with one member per field, in this order.
    open spec fn is_wire_form(&self, j: Json) -> bool {
        &&& has_keys(j, Self::wire_keys())
        &&& value_at(j, 0) == Json::Text(self.name)
        &&& value_at(j, 1) == Json::Text(self.version)
        &&& is_named_records_form(self.inference_stats@, value_at(j, 2))
        &&& value_at(j, 3) == opt_text_form(self.last_inference)
        &&& value_at(j, 4) == opt_text_form(self.inference_count)
        &&& value_at(j, 5) == opt_text_form(self.execution_count)
        &&& is_opt_records_form(opt_seq(self.batch_stats), value_at(j, 6))
    }

    open spec fn read_spec(j: Json) -> Option<(String, String, Seq<(String, <InferenceStats as View>::V)>, Option<String>, Option<String>, Option<String>, Option<Seq<<BatchStats as View>::V>>)> {
        let name = text_value(field(j, "name"@));
        let version = text_value(field(j, "version"@));
        let inference_stats = named_records_value::<InferenceStats>(field(j, "inferenceStats"@));
        let last_inference = opt_text_value(field(j, "lastInference"@));
        let inference_count = opt_text_value(field(j, "inferenceCount"@));
        let execution_count = opt_text_value(field(j, "executionCount"@));
        let batch_stats = opt_records_value::<BatchStats>(field(j, "batchStats"@));
        if name is Some && version is Some && inference_stats is Some && last_inference is Some && inference_count is Some && execution_count is Some && batch_stats is Some {
            Some((name->0, version->0, inference_stats->0, last_inference->0, inference_count->0, execution_count->0, batch_stats->0))
        } else {
            None
        }
    }

    fn to_json(&self) -> (j: Json) {
        let mut members: Vec<(String, Json)> = Vec::new();
        members.push((String::from_str("name"), Json::Text(self.name.clone())));
        members.push((String::from_str("version"), Json::Text(self.version.clone())));
        members.push((String::from_str("inferenceStats"), named_records_json(&self.inference_stats)));
        members.push((String::from_str("lastInference"), opt_text_json(&self.last_inference)));
        members.push((String::from_str("inferenceCount"), opt_text_json(&self.inference_count)));
        members.push((String::from_str("executionCount"), opt_text_json(&self.execution_count)));
        members.push((String::from_str("batchStats"), opt_records_json(&self.batch_stats)));
        let j = Json::Object(members);
        proof {
            assert(key_at(j, 0) == Self::wire_keys()[0]);
            assert(key_at(j, 1) == Self::wire_keys()[1]);
            assert(key_at(j, 2) == Self::wire_keys()[2]);
            assert(key_at(j, 3) == Self::wire_keys()[3]);
            assert(key_at(j, 4) == Self::wire_keys()[4]);
            assert(key_at(j, 5) == Self::wire_keys()[5]);
            assert(key_at(j, 6) == Self::wire_keys()[6]);
        }
        j
    }

    fn from_json(j: &Json) -> (r: Option<Self>) {
        let name = match read_text(j, "name") {
            Some(v) => v,
            None => return None,
        };
        let version = match read_text(j, "version") {
            Some(v) => v,
            None => return None,
        };
        let inference_stats = match read_named_records::<InferenceStats>(j, "inferenceStats") {
            Some(v) => v,
            None => return None,
        };
        let last_inference = match read_opt_text(j, "lastInference") {
            Some(v) => v,
            None => return None,
        };
        let inference_count = match read_opt_text(j, "inferenceCount") {
            Some(v) => v,
            None => return None,
        };
        let execution_count = match read_opt_text(j, "executionCount") {
            Some(v) => v,
            None => return None,
        };
        let batch_stats = match read_opt_records::<BatchStats>(j, "batchStats") {
            Some(v) => v,
            None => return None,
        };
        Some(ModelStats { name, version, inference_stats, last_inference, inference_count, execution_count, batch_stats })
    }

    proof fn lemma_round_trip(r: Self, j: Json) {
        reveal_strlit("name");
        reveal_strlit("version");
        reveal_strlit("inferenceStats");
        reveal_strlit("lastInference");
        reveal_strlit("inferenceCount");
        reveal_strlit("executionCount");
        reveal_strlit("batchStats");
        let keys = ModelStats::wire_keys();
        assert forall|a: int, b: int| 0 <= a < b < keys.len() implies keys[a] != keys[b] by {
            assert(keys[0].len() != keys[1].len());
            assert(keys[0].len() != keys[2].len());
            assert(keys[0].len() != keys[3].len());
            assert(keys[0].len() != keys[4].len());
            assert(keys[0].len() != keys[5].len());
            assert(keys[0].len() != keys[6].len());
            assert(keys[1].len() != keys[2].len());
            assert(keys[1].len() != keys[3].len());
            assert(keys[1].len() != keys[4].len());
            assert(keys[1].len() != keys[5].len());
            assert(keys[1].len() != keys[6].len());
            assert(keys[2].len() != keys[3].len());
            assert(keys[2][9] != keys[4][9]);
            assert(keys[2][0] != keys[5][0]);
            assert(keys[2].len() != keys[6].len());
            assert(keys[3].len() != keys[4].len());
            assert(keys[3].len() != keys[5].len());
            assert(keys[3].len() != keys[6].len());
            assert(keys[4][0] != keys[5][0]);
            assert(keys[4].len() != keys[6].len());
            assert(keys[5].len() != keys[6].len());
            assert(a == 0 || a == 1 || a == 2 || a == 3 || a == 4 || a == 5 || a == 6);
            assert(b == 0 || b == 1 || b == 2 || b == 3 || b == 4 || b == 5 || b == 6);
        }
        lemma_field_of_distinct_keys(j, keys, 0);
        lemma_field_of_distinct_keys(j, keys, 1);
        lemma_field_of_distinct_keys(j, keys, 2);
        lemma_named_records_round_trip(r.inference_stats@, value_at(j, 2));
        lemma_field_of_distinct_keys(j, keys, 3);
        lemma_field_of_distinct_keys(j, keys, 4);
        lemma_field_of_distinct_keys(j, keys, 5);
        lemma_field_of_distinct_keys(j, keys, 6);
        lemma_opt_records_round_trip(opt_seq(r.batch_stats), value_at(j, 6));
    }
}

/// The metrics of the inference server.
#[derive(Debug)]
pub struct MetricsResponse {
    pub model_stats: Vec<ModelStats>,
}

impl View for MetricsResponse {
    type V = Seq<<ModelStats as View>::V>;

    open spec fn view(&self) -> Seq<<ModelStats as View>::V> {
        views(self.model_stats@)
    }
}

impl MetricsResponse {
    /// The names of the members on the wire, in the order in which they are written.
    pub open spec fn wire_keys() -> Seq<Seq<char>> {
        seq!["modelStats"@]
    }
}

impl WireRecord for MetricsResponse {
    /// An object with one member per field, in this order.
    open spec fn is_wire_form(&self, j: Json) -> bool {
        &&& has_keys(j, Self::wire_keys())
        &&& is_records_form(self.model_stats@, value_at(j, 0))
    }

    open spec fn read_spec(j: Json) -> Option<Seq<<ModelStats as View>::V>> {
        let model_stats = req_records_value::<ModelStats>(field(j, "modelStats"@));
        if model_stats is Some {
            Some(model_stats->0)
        } else {
            None
        }
    }

    fn to_json(&self) -> (j: Json) {
        let mut members: Vec<(String, Json)> = Vec::new();
        members.push((String::from_str("modelStats"), records_json(&self.model_stats)));
        let j = Json::Object(members);
        proof {
            assert(key_at(j, 0) == Self::wire_keys()[0]);
        }
        j
    }

    fn from_json(j: &Json) -> (r: Option<Self>) {
        let model_stats = match read_records::<ModelStats>(j, "modelStats") {
            Some(v) => v,
            None => return None,
        };
        Some(MetricsResponse { model_stats })
    }

    proof fn lemma_round_trip(r: Self, j: Json) {
        reveal_strlit("modelStats");
        let keys = MetricsResponse::wire_keys();
        lemma_field_of_distinct_keys(j, keys, 0);
        lemma_records_round_trip(r.model_stats@, value_at(j, 0));
    }
}


} // verus!
