use vstd::prelude::*;

verus! {

/// One extra property of a resource path, such as `skip` or `genre`.
#[derive(Clone, PartialEq, Eq, Debug)]
pub struct ExtraValue {
    pub name: String,
    pub value: String,
}

/// The path of a resource within an addon: the resource, the content type,
/// the id and the extra properties.
#[derive(Clone, PartialEq, Eq, Debug)]
pub struct ResourcePath {
    pub resource: String,
    pub content_type: String,
    pub id: String,
    pub extra: Vec<ExtraValue>,
}

/// A request for a resource of the addon at the transport URL `base`.
#[derive(Clone, PartialEq, Eq, Debug)]
pub struct ResourceRequest {
    pub base: String,
    pub path: ResourcePath,
}

/// The content of a resource request, as plain text values.
pub struct ResourceRequestView {
    pub base: Seq<char>,
    pub resource: Seq<char>,
    pub content_type: Seq<char>,
    pub id: Seq<char>,
    pub extra: Seq<(Seq<char>, Seq<char>)>,
}

pub open spec fn extra_view(extra: Seq<ExtraValue>) -> Seq<(Seq<char>, Seq<char>)> {
    extra.map_values(|e: ExtraValue| (e.name@, e.value@))
}

impl View for ResourceRequest {
    type V = ResourceRequestView;

    open spec fn view(&self) -> ResourceRequestView {
        ResourceRequestView {
            base: self.base@,
            resource: self.path.resource@,
            content_type: self.path.content_type@,
            id: self.path.id@,
            extra: extra_view(self.path.extra@),
        }
    }
}

fn strings_equal(a: &String, b: &String) -> (r: bool)
    ensures
        r == (a@ == b@),
{
    crate::text::str_eq(a.as_str(), b.as_str())
}

impl ResourceRequest {
    /// A copy of the request.
    pub fn duplicate(&self) -> (r: ResourceRequest)
        ensures
            r@ == self@,
    {
        let mut extra: Vec<ExtraValue> = Vec::new();
        let mut i: usize = 0;
        while i < self.path.extra.len()
            invariant
                i <= self.path.extra.len(),
                extra@.len() == i,
                forall|j: int|
                    0 <= j < i ==> (#[trigger] extra@[j]).name@ == self.path.extra@[j].name@
                        && extra@[j].value@ == self.path.extra@[j].value@,
            decreases self.path.extra.len() - i,
        {
            let e = &self.path.extra[i];
            extra.push(ExtraValue { name: e.name.clone(), value: e.value.clone() });
            i = i + 1;
        }
        assert(extra_view(extra@) =~= extra_view(self.path.extra@));
        ResourceRequest {
            base: self.base.clone(),
            path: ResourcePath {
                resource: self.path.resource.clone(),
                content_type: self.path.content_type.clone(),
                id: self.path.id.clone(),
                extra,
            },
        }
    }

    /// Whether two requests ask for the same resource.
    pub fn same_as(&self, other: &ResourceRequest) -> (r: bool)
        ensures
            r == (self@ == other@),
    {
        if !strings_equal(&self.base, &other.base) || !strings_equal(
            &self.path.resource,
            &other.path.resource,
        ) || !strings_equal(&self.path.content_type, &other.path.content_type) || !strings_equal(
            &self.path.id,
            &other.path.id,
        ) || self.path.extra.len() != other.path.extra.len() {
            proof {
                if self@ == other@ {
                    assert(extra_view(self.path.extra@).len() == self.path.extra@.len());
                }
            }
            return false;
        }
        let mut i: usize = 0;
        while i < self.path.extra.len()
            invariant
                i <= self.path.extra.len(),
                self.path.extra.len() == other.path.extra.len(),
                forall|j: int|
                    0 <= j < i ==> #[trigger] extra_view(self.path.extra@)[j] == extra_view(
                        other.path.extra@,
                    )[j],
            decreases self.path.extra.len() - i,
        {
            let a = &self.path.extra[i];
            let b = &other.path.extra[i];
            if !strings_equal(&a.name, &b.name) || !strings_equal(&a.value, &b.value) {
                proof {
                    if self@ == other@ {
                        assert(extra_view(self.path.extra@)[i as int] == extra_view(
                            other.path.extra@,
                        )[i as int]);
                    }
                }
                return false;
            }
            i = i + 1;
        }
        assert(extra_view(self.path.extra@) =~= extra_view(other.path.extra@));
        true
    }
}

} // verus!

verus! {

/// An extra property that a catalog accepts: its name, whether a value is
/// required, the values offered, and how many values it takes at once.
#[derive(PartialEq, Eq, Debug)]
pub struct ExtraProp {
    pub name: String,
    pub is_required: bool,
    pub options: Vec<String>,
    pub options_limit: usize,
}

/// An extra property as plain values: name, whether required, the values
/// offered and the most values taken at once.
pub type ExtraPropView = (Seq<char>, bool, Seq<Seq<char>>, usize);

pub open spec fn texts_of(values: Seq<String>) -> Seq<Seq<char>> {
    values.map_values(|t: String| t@)
}

pub open spec fn extra_prop_view(p: ExtraProp) -> ExtraPropView {
    (p.name@, p.is_required, texts_of(p.options@), p.options_limit)
}

pub open spec fn extra_props_view(ps: Seq<ExtraProp>) -> Seq<ExtraPropView> {
    ps.map_values(|p: ExtraProp| extra_prop_view(p))
}

/// A catalog that an addon offers: its id, content type, display name (if
/// any) and the extra properties it accepts.
#[derive(PartialEq, Eq, Debug)]
pub struct ManifestCatalog {
    pub id: String,
    pub content_type: String,
    pub name: Option<String>,
    pub extra: Vec<ExtraProp>,
}

/// A catalog as plain values.
pub type CatalogView = (Seq<char>, Seq<char>, Option<Seq<char>>, Seq<ExtraPropView>);

pub open spec fn optional_text(value: Option<String>) -> Option<Seq<char>> {
    match value {
        Some(s) => Some(s@),
        None => None,
    }
}

pub open spec fn manifest_catalog_view(c: ManifestCatalog) -> CatalogView {
    (c.id@, c.content_type@, optional_text(c.name), extra_props_view(c.extra@))
}

pub open spec fn catalogs_view(cs: Seq<ManifestCatalog>) -> Seq<CatalogView> {
    cs.map_values(|c: ManifestCatalog| manifest_catalog_view(c))
}

/// What an addon declares of itself: its id, name, the content types it
/// serves, whether it must be configured before it is installed, its
/// catalogs of content and its catalogs of addons.
#[derive(PartialEq, Eq, Debug)]
pub struct Manifest {
    pub id: String,
    pub name: String,
    pub types: Vec<String>,
    pub configuration_required: bool,
    pub catalogs: Vec<ManifestCatalog>,
    pub addon_catalogs: Vec<ManifestCatalog>,
}

/// How the user's addon list treats an addon: an official one, a protected
/// one that cannot be removed or upgraded.
#[derive(Clone, Copy, Default, PartialEq, Eq, Debug, Structural)]
pub struct DescriptorFlags {
    pub official: bool,
    pub protected: bool,
}

/// An installed addon: its manifest, the URL it is reached at and its
/// flags.
#[derive(PartialEq, Eq, Debug)]
pub struct Descriptor {
    pub manifest: Manifest,
    pub transport_url: String,
    pub flags: DescriptorFlags,
}

pub type DescriptorView = (
    Seq<char>,
    Seq<char>,
    Seq<Seq<char>>,
    Seq<char>,
    bool,
    DescriptorFlags,
    Seq<CatalogView>,
    Seq<CatalogView>,
);

/// A descriptor as plain values.
pub open spec fn descriptor_view(d: Descriptor) -> DescriptorView {
    (
        d.manifest.id@,
        d.manifest.name@,
        d.manifest.types@.map_values(|t: String| t@),
        d.transport_url@,
        d.manifest.configuration_required,
        d.flags,
        catalogs_view(d.manifest.catalogs@),
        catalogs_view(d.manifest.addon_catalogs@),
    )
}

/// Whether two lists of texts are equal.
pub fn same_texts(a: &Vec<String>, b: &Vec<String>) -> (r: bool)
    ensures
        r == (a@.map_values(|t: String| t@) == b@.map_values(|t: String| t@)),
{
    if a.len() != b.len() {
        proof {
            if a@.map_values(|t: String| t@) == b@.map_values(|t: String| t@) {
                assert(a@.map_values(|t: String| t@).len() == a@.len());
            }
        }
        return false;
    }
    let mut i: usize = 0;
    while i < a.len()
        invariant
            i <= a.len(),
            a.len() == b.len(),
            forall|j: int| 0 <= j < i ==> a@[j]@ == #[trigger] b@[j]@,
        decreases a.len() - i,
    {
        if !strings_equal(&a[i], &b[i]) {
            proof {
                assert(a@.map_values(|t: String| t@)[i as int] != b@.map_values(|t: String| t@)[i as int]);
            }
            return false;
        }
        i = i + 1;
    }
    assert(a@.map_values(|t: String| t@) =~= b@.map_values(|t: String| t@));
    true
}

/// Whether two descriptors have the same value.
pub fn same_descriptor(a: &Descriptor, b: &Descriptor) -> (r: bool)
    ensures
        r == (descriptor_view(*a) == descriptor_view(*b)),
{
    strings_equal(&a.manifest.id, &b.manifest.id) && strings_equal(&a.manifest.name, &b.manifest.name)
        && same_texts(&a.manifest.types, &b.manifest.types) && strings_equal(
        &a.transport_url,
        &b.transport_url,
    ) && a.manifest.configuration_required == b.manifest.configuration_required && a.flags
        == b.flags && same_catalogs(&a.manifest.catalogs, &b.manifest.catalogs) && same_catalogs(
        &a.manifest.addon_catalogs,
        &b.manifest.addon_catalogs,
    )
}

fn same_optional_text(a: &Option<String>, b: &Option<String>) -> (r: bool)
    ensures
        r == (optional_text(*a) == optional_text(*b)),
{
    match (a, b) {
        (Some(x), Some(y)) => strings_equal(x, y),
        (None, None) => true,
        _ => false,
    }
}

fn same_props(a: &Vec<ExtraProp>, b: &Vec<ExtraProp>) -> (r: bool)
    ensures
        r == (extra_props_view(a@) == extra_props_view(b@)),
{
    if a.len() != b.len() {
        assert(extra_props_view(a@).len() != extra_props_view(b@).len());
        return false;
    }
    let mut i: usize = 0;
    while i < a.len()
        invariant
            i <= a.len(),
            a.len() == b.len(),
            forall|j: int| 0 <= j < i ==> extra_prop_view(a@[j]) == #[trigger] extra_prop_view(b@[j]),
        decreases a.len() - i,
    {
        let same = strings_equal(&a[i].name, &b[i].name) && a[i].is_required == b[i].is_required
            && same_texts(&a[i].options, &b[i].options) && a[i].options_limit == b[i].options_limit;
        if !same {
            assert(extra_props_view(a@)[i as int] != extra_props_view(b@)[i as int]);
            return false;
        }
        i = i + 1;
    }
    assert(extra_props_view(a@) =~= extra_props_view(b@));
    true
}

/// Whether two lists of catalogs have the same value.
pub fn same_catalogs(a: &Vec<ManifestCatalog>, b: &Vec<ManifestCatalog>) -> (r: bool)
    ensures
        r == (catalogs_view(a@) == catalogs_view(b@)),
{
    if a.len() != b.len() {
        assert(catalogs_view(a@).len() != catalogs_view(b@).len());
        return false;
    }
    let mut i: usize = 0;
    while i < a.len()
        invariant
            i <= a.len(),
            a.len() == b.len(),
            forall|j: int| 0 <= j < i ==> manifest_catalog_view(a@[j]) == #[trigger] manifest_catalog_view(b@[j]),
        decreases a.len() - i,
    {
        let same = strings_equal(&a[i].id, &b[i].id) && strings_equal(&a[i].content_type, &b[i].content_type)
            && same_optional_text(&a[i].name, &b[i].name) && same_props(&a[i].extra, &b[i].extra);
        if !same {
            assert(catalogs_view(a@)[i as int] != catalogs_view(b@)[i as int]);
            return false;
        }
        i = i + 1;
    }
    assert(catalogs_view(a@) =~= catalogs_view(b@));
    true
}

fn clone_texts(values: &Vec<String>) -> (r: Vec<String>)
    ensures
        r@ == values@,
{
    let mut out: Vec<String> = Vec::new();
    let mut i: usize = 0;
    while i < values.len()
        invariant
            i <= values.len(),
            out@ == values@.take(i as int),
        decreases values.len() - i,
    {
        out.push(values[i].clone());
        assert(out@ =~= values@.take(i + 1));
        i = i + 1;
    }
    assert(values@.take(values.len() as int) =~= values@);
    out
}

fn clone_props(props: &Vec<ExtraProp>) -> (r: Vec<ExtraProp>)
    ensures
        extra_props_view(r@) == extra_props_view(props@),
{
    let mut out: Vec<ExtraProp> = Vec::new();
    let mut i: usize = 0;
    while i < props.len()
        invariant
            i <= props.len(),
            out@.len() == i,
            forall|j: int| 0 <= j < i ==> extra_prop_view(#[trigger] out@[j]) == extra_prop_view(props@[j]),
        decreases props.len() - i,
    {
        let p = &props[i];
        let options = clone_texts(&p.options);
        out.push(ExtraProp { name: p.name.clone(), is_required: p.is_required, options, options_limit: p.options_limit });
        i = i + 1;
    }
    assert(extra_props_view(out@) =~= extra_props_view(props@));
    out
}

/// A copy of the catalogs.
pub fn clone_catalogs(catalogs: &Vec<ManifestCatalog>) -> (r: Vec<ManifestCatalog>)
    ensures
        catalogs_view(r@) == catalogs_view(catalogs@),
{
    let mut out: Vec<ManifestCatalog> = Vec::new();
    let mut i: usize = 0;
    while i < catalogs.len()
        invariant
            i <= catalogs.len(),
            out@.len() == i,
            forall|j: int|
                0 <= j < i ==> manifest_catalog_view(#[trigger] out@[j]) == manifest_catalog_view(catalogs@[j]),
        decreases catalogs.len() - i,
    {
        let c = &catalogs[i];
        let name = match &c.name {
            Some(n) => Some(n.clone()),
            None => None,
        };
        let extra = clone_props(&c.extra);
        out.push(ManifestCatalog { id: c.id.clone(), content_type: c.content_type.clone(), name, extra });
        i = i + 1;
    }
    assert(catalogs_view(out@) =~= catalogs_view(catalogs@));
    out
}

impl Clone for Descriptor {
    fn clone(&self) -> (r: Self)
        ensures
            descriptor_view(r) == descriptor_view(*self),
    {
        Descriptor {
            manifest: Manifest {
                id: self.manifest.id.clone(),
                name: self.manifest.name.clone(),
                types: clone_texts(&self.manifest.types),
                configuration_required: self.manifest.configuration_required,
                catalogs: clone_catalogs(&self.manifest.catalogs),
                addon_catalogs: clone_catalogs(&self.manifest.addon_catalogs),
            },
            transport_url: self.transport_url.clone(),
            flags: self.flags,
        }
    }
}

} // verus!
