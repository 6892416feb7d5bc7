use vstd::prelude::*;
use crate::str_eq;

verus! {

/// One entry of the fixed embedding-model registry: a model name, the
/// length of the vectors it produces, and a short description.
pub struct ModelDescriptor {
    pub name: String,
    pub dimension: u64,
    pub description: String,
}

/// The name of the model chosen when no name, or an unknown name, is given.
pub open spec fn default_model_name() -> Seq<char> {
    "BGEBaseEN"@
}

/// Whether `name` names a model of the fixed registry.
pub open spec fn is_registry_model(name: Seq<char>) -> bool {
    ||| name == "AllMiniLML6V2"@
    ||| name == "BGEBaseEN"@
    ||| name == "BGEBaseENV15"@
    ||| name == "BGESmallEN"@
    ||| name == "BGESmallENV15"@
    ||| name == "BGESmallZH"@
    ||| name == "MLE5Large"@
}

/// The vector length of the named registry model; an unknown name gets the
/// default model's length.
pub open spec fn spec_dimension_of(name: Seq<char>) -> u64 {
    if name == "AllMiniLML6V2"@ {
        384
    } else if name == "BGEBaseEN"@ {
        768
    } else if name == "BGEBaseENV15"@ {
        768
    } else if name == "BGESmallEN"@ {
        384
    } else if name == "BGESmallENV15"@ {
        384
    } else if name == "BGESmallZH"@ {
        512
    } else if name == "MLE5Large"@ {
        1024
    } else {
        768
    }
}

/// Makes the character content of every registry model name available to
/// the prover, so that the names can be told apart.
proof fn reveal_registry_names()
    ensures
        is_registry_model("AllMiniLML6V2"@),
        is_registry_model("BGEBaseEN"@),
        is_registry_model("BGEBaseENV15"@),
        is_registry_model("BGESmallEN"@),
        is_registry_model("BGESmallENV15"@),
        is_registry_model("BGESmallZH"@),
        is_registry_model("MLE5Large"@),
        spec_dimension_of("AllMiniLML6V2"@) == 384,
        spec_dimension_of("BGEBaseEN"@) == 768,
        spec_dimension_of("BGEBaseENV15"@) == 768,
        spec_dimension_of("BGESmallEN"@) == 384,
        spec_dimension_of("BGESmallENV15"@) == 384,
        spec_dimension_of("BGESmallZH"@) == 512,
        spec_dimension_of("MLE5Large"@) == 1024,
        default_model_name() == "BGEBaseEN"@,
{
    reveal_strlit("AllMiniLML6V2");
    reveal_strlit("BGEBaseEN");
    reveal_strlit("BGEBaseENV15");
    reveal_strlit("BGESmallEN");
    reveal_strlit("BGESmallENV15");
    reveal_strlit("BGESmallZH");
    reveal_strlit("MLE5Large");
    let a = "AllMiniLML6V2"@;
    let b = "BGEBaseEN"@;
    let c = "BGEBaseENV15"@;
    let d = "BGESmallEN"@;
    let e = "BGESmallENV15"@;
    let f = "BGESmallZH"@;
    let g = "MLE5Large"@;
    assert(a.len() == 13 && b.len() == 9 && c.len() == 12 && d.len() == 10 && e.len() == 13
        && f.len() == 10 && g.len() == 9);
    assert(a[0] == 'A' && e[0] == 'B');
    assert(d[8] == 'E' && f[8] == 'Z');
    assert(b[0] == 'B' && g[0] == 'M');
    assert(b != a);
    assert(c != a && c != b);
    assert(d != a && d != b && d != c);
    assert(e != a && e != b && e != c && e != d);
    assert(f != a && f != b && f != c && f != d && f != e);
    assert(g != a && g != b && g != c && g != d && g != e && g != f);
}

/// Builds one registry entry.
fn descriptor(name: &str, dimension: u64, description: &str) -> (r: ModelDescriptor)
    ensures
        r.name@ == name@,
        r.dimension == dimension,
        r.description@ == description@,
{
    ModelDescriptor {
        name: String::from_str(name),
        dimension,
        description: String::from_str(description),
    }
}

/// The fixed registry: every supported model with its vector length and a
/// description, in a stable order, the default model among them. Each
/// entry's length agrees with `spec_dimension_of` for its name.
pub fn registry() -> (r: Vec<ModelDescriptor>)
    ensures
        r@.len() == 7,
        r@[0].name@ == "AllMiniLML6V2"@,
        r@[1].name@ == "BGEBaseEN"@,
        r@[2].name@ == "BGEBaseENV15"@,
        r@[3].name@ == "BGESmallEN"@,
        r@[4].name@ == "BGESmallENV15"@,
        r@[5].name@ == "BGESmallZH"@,
        r@[6].name@ == "MLE5Large"@,
        forall|i: int|
            0 <= i < r@.len() ==> is_registry_model(#[trigger] r@[i].name@) && r@[i].dimension
                == spec_dimension_of(r@[i].name@),
        exists|i: int| 0 <= i < r@.len() && #[trigger] r@[i].name@ == default_model_name(),
{
    proof {
        reveal_registry_names();
    }
    let mut r: Vec<ModelDescriptor> = Vec::new();
    r.push(descriptor("AllMiniLML6V2", 384, "sentence transformer, MiniLM L6 v2"));
    r.push(descriptor("BGEBaseEN", 768, "base English model"));
    r.push(descriptor("BGEBaseENV15", 768, "base English model, v1.5"));
    r.push(descriptor("BGESmallEN", 384, "small English model"));
    r.push(descriptor("BGESmallENV15", 384, "small English model, v1.5"));
    r.push(descriptor("BGESmallZH", 512, "small Chinese model"));
    r.push(descriptor("MLE5Large", 1024, "multilingual E5 large model"));
    proof {
        assert(r@[1].name@ == default_model_name());
    }
    r
}

/// Wraps the selected embedding model: its descriptor is fixed at
/// construction and read-only afterwards.
pub struct EmbeddingProvider {
    pub current_model_name: String,
    pub dimension: u64,
}

impl EmbeddingProvider {
    /// The selected model is one of the registry, and the held vector
    /// length is that model's.
    pub open spec fn wf(self) -> bool {
        &&& is_registry_model(self.current_model_name@)
        &&& self.dimension == spec_dimension_of(self.current_model_name@)
    }

    /// Selects a model by exact name against the fixed registry. Selection
    /// is total: no name, or a name outside the registry, falls back to the
    /// default model rather than failing.
    pub fn new(model_name: Option<&str>) -> (r: EmbeddingProvider)
        ensures
            r.wf(),
            match model_name {
                Some(n) => if is_registry_model(n@) {
                    r.current_model_name@ == n@
                } else {
                    r.current_model_name@ == default_model_name()
                },
                None => r.current_model_name@ == default_model_name(),
            },
    {
        proof {
            reveal_registry_names();
        }
        match model_name {
            Some(n) => {
                if str_eq(n, "AllMiniLML6V2") {
                    EmbeddingProvider { current_model_name: String::from_str(n), dimension: 384 }
                } else if str_eq(n, "BGEBaseEN") {
                    EmbeddingProvider { current_model_name: String::from_str(n), dimension: 768 }
                } else if str_eq(n, "BGEBaseENV15") {
                    EmbeddingProvider { current_model_name: String::from_str(n), dimension: 768 }
                } else if str_eq(n, "BGESmallEN") {
                    EmbeddingProvider { current_model_name: String::from_str(n), dimension: 384 }
                } else if str_eq(n, "BGESmallENV15") {
                    EmbeddingProvider { current_model_name: String::from_str(n), dimension: 384 }
                } else if str_eq(n, "BGESmallZH") {
                    EmbeddingProvider { current_model_name: String::from_str(n), dimension: 512 }
                } else if str_eq(n, "MLE5Large") {
                    EmbeddingProvider { current_model_name: String::from_str(n), dimension: 1024 }
                } else {
                    EmbeddingProvider {
                        current_model_name: String::from_str("BGEBaseEN"),
                        dimension: 768,
                    }
                }
            },
            None => {
                EmbeddingProvider {
                    current_model_name: String::from_str("BGEBaseEN"),
                    dimension: 768,
                }
            },
        }
    }

    /// The selected model's vector length, used to size a collection at
    /// creation time.
    pub fn get_current_model_size(&self) -> (d: u64)
        requires
            self.wf(),
        ensures
            d == spec_dimension_of(self.current_model_name@),
    {
        self.dimension
    }
}

} // verus!
