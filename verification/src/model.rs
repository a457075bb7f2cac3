//! The models that the gateway offers.

use crate::text::same_text;
use vstd::prelude::*;

verus! {

/// The pool of tokens that a model draws from.
#[derive(Clone, Copy, Debug, PartialEq, Eq, Structural)]
pub enum Tier {
    Basic,
    Super,
}

/// How much of a token a request to a model uses up.
#[derive(Clone, Copy, Debug, PartialEq, Eq, Structural)]
pub enum Cost {
    Low,
    High,
}

/// A model of the gateway.
#[derive(Clone, Debug)]
pub struct ModelInfo {
    /// The name that requests use.
    pub model_id: String,
    /// The name of the model upstream.
    pub grok_model: String,
    /// The mode in which the model runs upstream.
    pub model_mode: String,
    pub tier: Tier,
    pub cost: Cost,
    pub display_name: String,
    pub description: String,
    pub is_video: bool,
    pub is_image: bool,
}

/// The plain form of a [`ModelInfo`].
pub struct ModelView {
    pub model_id: Seq<char>,
    pub grok_model: Seq<char>,
    pub model_mode: Seq<char>,
    pub tier: Tier,
    pub cost: Cost,
    pub display_name: Seq<char>,
    pub description: Seq<char>,
    pub is_video: bool,
    pub is_image: bool,
}

impl View for ModelInfo {
    type V = ModelView;

    open spec fn view(&self) -> ModelView {
        ModelView {
            model_id: self.model_id@,
            grok_model: self.grok_model@,
            model_mode: self.model_mode@,
            tier: self.tier,
            cost: self.cost,
            display_name: self.display_name@,
            description: self.description@,
            is_video: self.is_video,
            is_image: self.is_image,
        }
    }
}

/// A text model of the basic tier and low cost.
pub open spec fn plain_model(
    model_id: Seq<char>,
    grok_model: Seq<char>,
    model_mode: Seq<char>,
    display_name: Seq<char>,
) -> ModelView {
    ModelView {
        model_id,
        grok_model,
        model_mode,
        tier: Tier::Basic,
        cost: Cost::Low,
        display_name,
        description: Seq::empty(),
        is_video: false,
        is_image: false,
    }
}

/// All models, in the order in which they are listed.
pub open spec fn model_table() -> Seq<ModelView> {
    seq![
        plain_model("grok-3"@, "grok-3"@, "MODEL_MODE_AUTO"@, "Grok 3"@),
        plain_model("grok-3-fast"@, "grok-3"@, "MODEL_MODE_FAST"@, "Grok 3 Fast"@),
        plain_model("grok-4"@, "grok-4"@, "MODEL_MODE_AUTO"@, "Grok 4"@),
        plain_model("grok-4-mini"@, "grok-4-mini-thinking-tahoe"@, "MODEL_MODE_GROK_4_MINI_THINKING"@, "Grok 4 Mini"@),
        plain_model("grok-4-fast"@, "grok-4"@, "MODEL_MODE_FAST"@, "Grok 4 Fast"@),
        ModelView {
            tier: Tier::Super,
            cost: Cost::High,
            ..plain_model("grok-4-heavy"@, "grok-4"@, "MODEL_MODE_HEAVY"@, "Grok 4 Heavy"@)
        },
        plain_model("grok-4.1"@, "grok-4-1-thinking-1129"@, "MODEL_MODE_AUTO"@, "Grok 4.1"@),
        ModelView {
            cost: Cost::High,
            ..plain_model("grok-4.1-thinking"@, "grok-4-1-thinking-1129"@, "MODEL_MODE_GROK_4_1_THINKING"@, "Grok 4.1 Thinking"@)
        },
        ModelView {
            cost: Cost::High,
            is_image: true,
            description: "Image generation model"@,
            ..plain_model("grok-imagine-1.0"@, "grok-3"@, "MODEL_MODE_FAST"@, "Grok Image"@)
        },
        ModelView {
            cost: Cost::High,
            is_video: true,
            description: "Video generation model"@,
            ..plain_model("grok-imagine-1.0-video"@, "grok-3"@, "MODEL_MODE_FAST"@, "Grok Video"@)
        },
        ModelView {
            cost: Cost::High,
            is_video: true,
            description: "3-second video generation model"@,
            ..plain_model("grok-video-3"@, "grok-3"@, "MODEL_MODE_FAST"@, "Grok Video 3"@)
        },
        ModelView {
            cost: Cost::High,
            is_video: true,
            description: "6-second video generation model"@,
            ..plain_model("grok-video-3-pro"@, "grok-3"@, "MODEL_MODE_FAST"@, "Grok Video 3 Pro"@)
        },
    ]
}

/// The first model of `table` with the name `model_id`.
pub open spec fn find_model(table: Seq<ModelView>, model_id: Seq<char>) -> Option<ModelView>
    decreases table.len(),
{
    if table.len() == 0 {
        None
    } else if table[0].model_id == model_id {
        Some(table[0])
    } else {
        find_model(table.drop_first(), model_id)
    }
}

/// The token pool of a model: that of the super tier for its models, the basic
/// one for all others and for unknown names.
pub open spec fn model_pool(model_id: Seq<char>) -> Seq<char> {
    match find_model(model_table(), model_id) {
        Some(m) => if m.tier == Tier::Super {
            "ssoSuper"@
        } else {
            "ssoBasic"@
        },
        None => "ssoBasic"@,
    }
}

/// The plain forms of a list of models.
pub open spec fn model_views(v: Seq<ModelInfo>) -> Seq<ModelView> {
    v.map_values(|m: ModelInfo| m@)
}

impl ModelInfo {
    /// A text model of the basic tier and low cost.
    pub fn new(model_id: &str, grok_model: &str, mode: &str, display: &str) -> (r: ModelInfo)
        ensures
            r@ == plain_model(model_id@, grok_model@, mode@, display@),
    {
        ModelInfo {
            model_id: model_id.to_string(),
            grok_model: grok_model.to_string(),
            model_mode: mode.to_string(),
            tier: Tier::Basic,
            cost: Cost::Low,
            display_name: display.to_string(),
            description: String::new(),
            is_video: false,
            is_image: false,
        }
    }
}

/// The models of the gateway, by name.
pub struct ModelService;

impl ModelService {
    /// All models.
    pub fn list() -> (r: Vec<ModelInfo>)
        ensures
            model_views(r@) == model_table(),
    {
        let mut models: Vec<ModelInfo> = Vec::new();
        models.push(ModelInfo::new("grok-3", "grok-3", "MODEL_MODE_AUTO", "Grok 3"));
        models.push(ModelInfo::new("grok-3-fast", "grok-3", "MODEL_MODE_FAST", "Grok 3 Fast"));
        models.push(ModelInfo::new("grok-4", "grok-4", "MODEL_MODE_AUTO", "Grok 4"));
        models.push(ModelInfo::new("grok-4-mini", "grok-4-mini-thinking-tahoe", "MODEL_MODE_GROK_4_MINI_THINKING", "Grok 4 Mini"));
        models.push(ModelInfo::new("grok-4-fast", "grok-4", "MODEL_MODE_FAST", "Grok 4 Fast"));
        models.push(ModelInfo {
            tier: Tier::Super,
            cost: Cost::High,
            ..ModelInfo::new("grok-4-heavy", "grok-4", "MODEL_MODE_HEAVY", "Grok 4 Heavy")
        });
        models.push(ModelInfo::new("grok-4.1", "grok-4-1-thinking-1129", "MODEL_MODE_AUTO", "Grok 4.1"));
        models.push(ModelInfo {
            cost: Cost::High,
            ..ModelInfo::new("grok-4.1-thinking", "grok-4-1-thinking-1129", "MODEL_MODE_GROK_4_1_THINKING", "Grok 4.1 Thinking")
        });
        models.push(ModelInfo {
            cost: Cost::High,
            is_image: true,
            description: "Image generation model".to_string(),
            ..ModelInfo::new("grok-imagine-1.0", "grok-3", "MODEL_MODE_FAST", "Grok Image")
        });
        models.push(ModelInfo {
            cost: Cost::High,
            is_video: true,
            description: "Video generation model".to_string(),
            ..ModelInfo::new("grok-imagine-1.0-video", "grok-3", "MODEL_MODE_FAST", "Grok Video")
        });
        models.push(ModelInfo {
            cost: Cost::High,
            is_video: true,
            description: "3-second video generation model".to_string(),
            ..ModelInfo::new("grok-video-3", "grok-3", "MODEL_MODE_FAST", "Grok Video 3")
        });
        models.push(ModelInfo {
            cost: Cost::High,
            is_video: true,
            description: "6-second video generation model".to_string(),
            ..ModelInfo::new("grok-video-3-pro", "grok-3", "MODEL_MODE_FAST", "Grok Video 3 Pro")
        });
        assert(model_views(models@) == model_table());
        models
    }

    /// The model with the name `model_id`.
    pub fn get(model_id: &str) -> (r: Option<ModelInfo>)
        ensures
            match r {
                Some(m) => find_model(model_table(), model_id@) == Some(m@),
                None => find_model(model_table(), model_id@) is None,
            },
    {
        let mut models = ModelService::list();
        let ghost table = model_table();
        assert(table.skip(0) == table);
        let mut i: usize = 0;
        while i < models.len()
            invariant
                i <= models@.len(),
                model_views(models@) == table,
                table == model_table(),
                find_model(table, model_id@) == find_model(table.skip(i as int), model_id@),
            decreases models@.len() - i,
        {
            assert(table[i as int] == models@[i as int]@);
            if same_text(models[i].model_id.as_str(), model_id) {
                return Some(models.swap_remove(i));
            }
            assert(table.skip(i as int).drop_first() == table.skip(i + 1));
            i = i + 1;
        }
        None
    }

    /// Whether there is a model with the name `model_id`.
    pub fn valid(model_id: &str) -> (r: bool)
        ensures
            r == (find_model(model_table(), model_id@) is Some),
    {
        ModelService::get(model_id).is_some()
    }

    /// The token pool that requests to `model_id` draw from.
    pub fn pool_for_model(model_id: &str) -> (r: String)
        ensures
            r@ == model_pool(model_id@),
    {
        if let Some(m) = ModelService::get(model_id) {
            if m.tier == Tier::Super {
                return "ssoSuper".to_string();
            }
        }
        "ssoBasic".to_string()
    }
}

/// A lookup finds a model of the table under its own name, and succeeds for
/// exactly the names in the table.
proof fn lemma_find_model(table: Seq<ModelView>, model_id: Seq<char>)
    ensures
        match find_model(table, model_id) {
            Some(m) => m.model_id == model_id && table.contains(m),
            None => forall|i: int| 0 <= i < table.len() ==> table[i].model_id != model_id,
        },
    decreases table.len(),
{
    if table.len() > 0 && table[0].model_id != model_id {
        let rest = table.drop_first();
        lemma_find_model(rest, model_id);
        match find_model(rest, model_id) {
            Some(m) => {
                let k = choose|k: int| 0 <= k < rest.len() && rest[k] == m;
                assert(table[k + 1] == m);
            },
            None => {
                assert forall|i: int| 0 <= i < table.len() implies table[i].model_id != model_id by {
                    if i > 0 {
                        assert(rest[i - 1] == table[i]);
                    }
                }
            },
        }
    }
}

/// No two models have the same name.
pub proof fn law_model_names_distinct(i: int, j: int)
    requires
        0 <= i < j < model_table().len(),
    ensures
        model_table()[i].model_id != model_table()[j].model_id,
{
    reveal_strlit("grok-3");
    reveal_strlit("grok-3-fast");
    reveal_strlit("grok-4");
    reveal_strlit("grok-4-mini");
    reveal_strlit("grok-4-fast");
    reveal_strlit("grok-4-heavy");
    reveal_strlit("grok-4.1");
    reveal_strlit("grok-4.1-thinking");
    reveal_strlit("grok-imagine-1.0");
    reveal_strlit("grok-imagine-1.0-video");
    reveal_strlit("grok-video-3");
    reveal_strlit("grok-video-3-pro");
    let a = model_table()[i].model_id;
    let b = model_table()[j].model_id;
    assert(a.len() != b.len() || a[5] != b[5] || a[7] != b[7]);
}

/// Every listed model is found under its name.
pub proof fn law_listed_model_is_found(i: int)
    requires
        0 <= i < model_table().len(),
    ensures
        find_model(model_table(), model_table()[i].model_id) == Some(model_table()[i]),
{
    let table = model_table();
    lemma_find_model(table, table[i].model_id);
    if let Some(m) = find_model(table, table[i].model_id) {
        let k = choose|k: int| 0 <= k < table.len() && table[k] == m;
        if k < i {
            law_model_names_distinct(k, i);
        } else if i < k {
            law_model_names_distinct(i, k);
        }
    }
}

/// A model that is found is listed, under the name that was looked up.
pub proof fn law_found_model_is_listed(model_id: Seq<char>)
    requires
        find_model(model_table(), model_id) is Some,
    ensures
        model_table().contains(find_model(model_table(), model_id).unwrap()),
        find_model(model_table(), model_id).unwrap().model_id == model_id,
{
    lemma_find_model(model_table(), model_id);
}

/// `grok-4-heavy` alone draws on the pool of the super tier.
pub proof fn law_super_pool(model_id: Seq<char>)
    ensures
        model_pool(model_id) == "ssoSuper"@ <==> model_id == "grok-4-heavy"@,
{
    reveal_strlit("ssoSuper");
    reveal_strlit("ssoBasic");
    assert("ssoSuper"@[3] != "ssoBasic"@[3]);
    let table = model_table();
    lemma_find_model(table, model_id);
    if let Some(m) = find_model(table, model_id) {
        let k = choose|k: int| 0 <= k < table.len() && table[k] == m;
        if model_id == "grok-4-heavy"@ {
            law_listed_model_is_found(5);
            assert(table[5].model_id == model_id);
        }
    } else {
        assert(table[5].model_id == "grok-4-heavy"@);
    }
}

/// A model has a description exactly where it makes images or videos, and no
/// model makes both.
pub proof fn law_media_models_are_described(i: int)
    requires
        0 <= i < model_table().len(),
    ensures
        ({
            let m = model_table()[i];
            &&& m.description.len() > 0 <==> (m.is_image || m.is_video)
            &&& !(m.is_image && m.is_video)
        }),
{
    reveal_strlit("Image generation model");
    reveal_strlit("Video generation model");
    reveal_strlit("3-second video generation model");
    reveal_strlit("6-second video generation model");
}

/// The names of the models that there are.
pub open spec fn model_names() -> Seq<Seq<char>> {
    seq![
        "grok-3"@,
        "grok-3-fast"@,
        "grok-4"@,
        "grok-4-mini"@,
        "grok-4-fast"@,
        "grok-4-heavy"@,
        "grok-4.1"@,
        "grok-4.1-thinking"@,
        "grok-imagine-1.0"@,
        "grok-imagine-1.0-video"@,
        "grok-video-3"@,
        "grok-video-3-pro"@,
    ]
}

/// A model is found exactly where it is one of those that there are, under its own
/// name. Only `grok-4-heavy` is of the super tier. Thinking at length, and making
/// images or videos, has a high cost. Models make images or videos by their names.
pub proof fn law_models(model_id: &str, r: Option<ModelInfo>, valid: bool)
    requires
        call_ensures(ModelService::get, (model_id,), r),
        call_ensures(ModelService::valid, (model_id,), valid),
    ensures
        r is Some <==> (model_id@ == "grok-3"@ || model_id@ == "grok-3-fast"@ || model_id@ == "grok-4"@ || model_id@ == "grok-4-mini"@ || model_id@ == "grok-4-fast"@ || model_id@ == "grok-4-heavy"@ || model_id@ == "grok-4.1"@ || model_id@ == "grok-4.1-thinking"@ || model_id@ == "grok-imagine-1.0"@ || model_id@ == "grok-imagine-1.0-video"@ || model_id@ == "grok-video-3"@ || model_id@ == "grok-video-3-pro"@),
        valid <==> r is Some,
        r is Some ==> r->0.model_id@ == model_id@,
        r is Some ==> (r->0.tier == Tier::Super <==> model_id@ == "grok-4-heavy"@),
        r is Some ==> (r->0.tier == Tier::Basic <==> model_id@ != "grok-4-heavy"@),
        r is Some ==> (r->0.cost == Cost::High <==> (model_id@ == "grok-4-heavy"@ || model_id@
            == "grok-4.1-thinking"@ || r->0.is_image || r->0.is_video)),
        r is Some ==> (r->0.cost == Cost::Low || r->0.cost == Cost::High),
        r is Some ==> (r->0.is_image <==> model_id@ == "grok-imagine-1.0"@),
        r is Some ==> (r->0.is_video <==> (model_id@ == "grok-imagine-1.0-video"@ || model_id@
            == "grok-video-3"@ || model_id@ == "grok-video-3-pro"@)),
{
    let table = model_table();
    let names = model_names();
    lemma_find_model(table, model_id@);
    lemma_model_table_names();
    if r is Some {
        law_found_model_is_listed(model_id@);
        let k = choose|k: int| 0 <= k < table.len() && table[k] == r->0@;
        assert(names[k] == model_id@);
        lemma_model_at(k, model_id@);
    } else {
        assert(table[0].model_id == "grok-3"@);
        assert(table[1].model_id == "grok-3-fast"@);
        assert(table[2].model_id == "grok-4"@);
        assert(table[3].model_id == "grok-4-mini"@);
        assert(table[4].model_id == "grok-4-fast"@);
        assert(table[5].model_id == "grok-4-heavy"@);
        assert(table[6].model_id == "grok-4.1"@);
        assert(table[7].model_id == "grok-4.1-thinking"@);
        assert(table[8].model_id == "grok-imagine-1.0"@);
        assert(table[9].model_id == "grok-imagine-1.0-video"@);
        assert(table[10].model_id == "grok-video-3"@);
        assert(table[11].model_id == "grok-video-3-pro"@);
    }
}

proof fn lemma_model_table_names()
    ensures
        model_table().len() == model_names().len(),
        forall|k: int|
            0 <= k < model_table().len() ==> (#[trigger] model_table()[k]).model_id
                == model_names()[k],
{
}

/// A name of the table stands at one place only.
proof fn lemma_model_at(k: int, model_id: Seq<char>)
    requires
        0 <= k < model_table().len(),
        model_table()[k].model_id == model_id,
    ensures
        forall|j: int|
            0 <= j < model_table().len() && j != k ==> (#[trigger] model_table()[j]).model_id
                != model_id,
        k == 0 <==> model_id == "grok-3"@,
        k == 1 <==> model_id == "grok-3-fast"@,
        k == 2 <==> model_id == "grok-4"@,
        k == 3 <==> model_id == "grok-4-mini"@,
        k == 4 <==> model_id == "grok-4-fast"@,
        k == 5 <==> model_id == "grok-4-heavy"@,
        k == 6 <==> model_id == "grok-4.1"@,
        k == 7 <==> model_id == "grok-4.1-thinking"@,
        k == 8 <==> model_id == "grok-imagine-1.0"@,
        k == 9 <==> model_id == "grok-imagine-1.0-video"@,
        k == 10 <==> model_id == "grok-video-3"@,
        k == 11 <==> model_id == "grok-video-3-pro"@,
{
    assert forall|j: int| 0 <= j < model_table().len() && j != k implies (
    #[trigger] model_table()[j]).model_id != model_id by {
        if j < k {
            law_model_names_distinct(j, k);
        } else {
            law_model_names_distinct(k, j);
        }
    }
    lemma_model_table_names();
    assert(model_table()[0].model_id == "grok-3"@);
    assert(model_table()[1].model_id == "grok-3-fast"@);
    assert(model_table()[2].model_id == "grok-4"@);
    assert(model_table()[3].model_id == "grok-4-mini"@);
    assert(model_table()[4].model_id == "grok-4-fast"@);
    assert(model_table()[5].model_id == "grok-4-heavy"@);
    assert(model_table()[6].model_id == "grok-4.1"@);
    assert(model_table()[7].model_id == "grok-4.1-thinking"@);
    assert(model_table()[8].model_id == "grok-imagine-1.0"@);
    assert(model_table()[9].model_id == "grok-imagine-1.0-video"@);
    assert(model_table()[10].model_id == "grok-video-3"@);
    assert(model_table()[11].model_id == "grok-video-3-pro"@);
}

/// A model is asked for upstream under the name of its family and with its mode, and
/// is shown under its name in words.
pub proof fn law_models_upstream(model_id: &str, r: Option<ModelInfo>)
    requires
        call_ensures(ModelService::get, (model_id,), r),
        r is Some,
    ensures
        ({
            let m = r->0;
            let name = model_id@;
            if name == "grok-3"@ {
                m.grok_model@ == "grok-3"@ && m.model_mode@ == "MODEL_MODE_AUTO"@ && m.display_name@ == "Grok 3"@ && m.description@ == Seq::<char>::empty()
            } else             if name == "grok-3-fast"@ {
                m.grok_model@ == "grok-3"@ && m.model_mode@ == "MODEL_MODE_FAST"@ && m.display_name@ == "Grok 3 Fast"@ && m.description@ == Seq::<char>::empty()
            } else             if name == "grok-4"@ {
                m.grok_model@ == "grok-4"@ && m.model_mode@ == "MODEL_MODE_AUTO"@ && m.display_name@ == "Grok 4"@ && m.description@ == Seq::<char>::empty()
            } else             if name == "grok-4-mini"@ {
                m.grok_model@ == "grok-4-mini-thinking-tahoe"@ && m.model_mode@ == "MODEL_MODE_GROK_4_MINI_THINKING"@ && m.display_name@ == "Grok 4 Mini"@ && m.description@ == Seq::<char>::empty()
            } else             if name == "grok-4-fast"@ {
                m.grok_model@ == "grok-4"@ && m.model_mode@ == "MODEL_MODE_FAST"@ && m.display_name@ == "Grok 4 Fast"@ && m.description@ == Seq::<char>::empty()
            } else             if name == "grok-4-heavy"@ {
                m.grok_model@ == "grok-4"@ && m.model_mode@ == "MODEL_MODE_HEAVY"@ && m.display_name@ == "Grok 4 Heavy"@ && m.description@ == Seq::<char>::empty()
            } else             if name == "grok-4.1"@ {
                m.grok_model@ == "grok-4-1-thinking-1129"@ && m.model_mode@ == "MODEL_MODE_AUTO"@ && m.display_name@ == "Grok 4.1"@ && m.description@ == Seq::<char>::empty()
            } else             if name == "grok-4.1-thinking"@ {
                m.grok_model@ == "grok-4-1-thinking-1129"@ && m.model_mode@ == "MODEL_MODE_GROK_4_1_THINKING"@ && m.display_name@ == "Grok 4.1 Thinking"@ && m.description@ == Seq::<char>::empty()
            } else             if name == "grok-imagine-1.0"@ {
                m.grok_model@ == "grok-3"@ && m.model_mode@ == "MODEL_MODE_FAST"@ && m.display_name@ == "Grok Image"@ && m.description@ == "Image generation model"@
            } else             if name == "grok-imagine-1.0-video"@ {
                m.grok_model@ == "grok-3"@ && m.model_mode@ == "MODEL_MODE_FAST"@ && m.display_name@ == "Grok Video"@ && m.description@ == "Video generation model"@
            } else             if name == "grok-video-3"@ {
                m.grok_model@ == "grok-3"@ && m.model_mode@ == "MODEL_MODE_FAST"@ && m.display_name@ == "Grok Video 3"@ && m.description@ == "3-second video generation model"@
            } else             if name == "grok-video-3-pro"@ {
                m.grok_model@ == "grok-3"@ && m.model_mode@ == "MODEL_MODE_FAST"@ && m.display_name@ == "Grok Video 3 Pro"@ && m.description@ == "6-second video generation model"@
            } else {
                false
            }
        }),
{
    let table = model_table();
    law_found_model_is_listed(model_id@);
    let k = choose|k: int| 0 <= k < table.len() && table[k] == r->0@;
    lemma_model_at(k, model_id@);
}

/// The list holds every model that can be found, once, as it is found.
pub proof fn law_model_list(r: Vec<ModelInfo>, model_id: &str, found: Option<ModelInfo>, i: int)
    requires
        call_ensures(ModelService::list, (), r),
        call_ensures(ModelService::get, (model_id,), found),
    ensures
        r@.len() == model_names().len(),
        0 <= i < r@.len() ==> r@[i].model_id@ == model_names()[i],
        0 <= i < r@.len() && r@[i].model_id@ == model_id@ ==> found is Some && found->0@ == r@[i]@,
{
    lemma_model_table_names();
    assert(model_views(r@).len() == r@.len());
    if 0 <= i < r@.len() {
        assert(model_views(r@)[i] == r@[i]@);
        law_listed_model_is_found(i);
    }
}

/// Requests draw on the super pool for `grok-4-heavy`, and on the basic one for
/// everything else.
pub proof fn law_pool(model_id: &str, r: String)
    requires
        call_ensures(ModelService::pool_for_model, (model_id,), r),
    ensures
        model_id@ == "grok-4-heavy"@ ==> r@ == "ssoSuper"@,
        model_id@ != "grok-4-heavy"@ ==> r@ == "ssoBasic"@,
{
    law_super_pool(model_id@);
}

/// A model that is made with four texts has them, and is a text model of the basic
/// tier and low cost.
pub proof fn law_new_model(
    model_id: &str,
    grok_model: &str,
    mode: &str,
    display: &str,
    r: ModelInfo,
)
    requires
        call_ensures(ModelInfo::new, (model_id, grok_model, mode, display), r),
    ensures
        r.model_id@ == model_id@,
        r.grok_model@ == grok_model@,
        r.model_mode@ == mode@,
        r.display_name@ == display@,
        r.description@.len() == 0,
        r.tier == Tier::Basic,
        r.cost == Cost::Low,
        !r.is_video,
        !r.is_image,
{
}

/// A name is that of a video model exactly where it is one of three, and these have a
/// high cost.
pub proof fn law_video_models(model_id: Seq<char>)
    ensures
        find_model(model_table(), model_id) is Some <==> (model_id == "grok-3"@ || model_id == "grok-3-fast"@ || model_id == "grok-4"@ || model_id == "grok-4-mini"@ || model_id == "grok-4-fast"@ || model_id == "grok-4-heavy"@ || model_id == "grok-4.1"@ || model_id == "grok-4.1-thinking"@ || model_id == "grok-imagine-1.0"@ || model_id == "grok-imagine-1.0-video"@ || model_id == "grok-video-3"@ || model_id == "grok-video-3-pro"@),
        find_model(model_table(), model_id) is Some ==> (find_model(
            model_table(),
            model_id,
        )->0.is_video <==> (model_id == "grok-imagine-1.0-video"@ || model_id == "grok-video-3"@
            || model_id == "grok-video-3-pro"@)),
        find_model(model_table(), model_id) is Some && find_model(
            model_table(),
            model_id,
        )->0.is_video ==> find_model(model_table(), model_id)->0.cost == Cost::High,
{
    let table = model_table();
    lemma_find_model(table, model_id);
    if let Some(m) = find_model(table, model_id) {
        let k = choose|k: int| 0 <= k < table.len() && table[k] == m;
        lemma_model_table_names();
        lemma_model_at(k, model_id);
    } else {
        assert(table[0].model_id == "grok-3"@);
        assert(table[1].model_id == "grok-3-fast"@);
        assert(table[2].model_id == "grok-4"@);
        assert(table[3].model_id == "grok-4-mini"@);
        assert(table[4].model_id == "grok-4-fast"@);
        assert(table[5].model_id == "grok-4-heavy"@);
        assert(table[6].model_id == "grok-4.1"@);
        assert(table[7].model_id == "grok-4.1-thinking"@);
        assert(table[8].model_id == "grok-imagine-1.0"@);
        assert(table[9].model_id == "grok-imagine-1.0-video"@);
        assert(table[10].model_id == "grok-video-3"@);
        assert(table[11].model_id == "grok-video-3-pro"@);
    }
}

} // verus!
