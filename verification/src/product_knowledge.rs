//! What the bot knows about manufactured goods: where they are sold, their usual prices and
//! how many units one transaction may move.
use vstd::prelude::*;
use vstd::string::*;
use crate::text::text_eq;

verus! {

/// Facts about one manufactured good.
#[derive(Debug)]
pub struct ProductInfo {
    pub preferred_waypoint_traits: Vec<&'static str>,
    pub typical_price_range: (i64, i64),
    pub transaction_limit: Option<i32>,
    pub cargo_per_unit: i32,
}

/// The mathematical content of a [`ProductInfo`].
pub struct ProductFacts {
    pub traits: Seq<Seq<char>>,
    pub low: int,
    pub high: int,
    pub limit: Option<int>,
    pub cargo_per_unit: int,
}

impl View for ProductInfo {
    type V = ProductFacts;

    open spec fn view(&self) -> ProductFacts {
        ProductFacts {
            traits: self.preferred_waypoint_traits@.map_values(|t: &'static str| t@),
            low: self.typical_price_range.0 as int,
            high: self.typical_price_range.1 as int,
            limit: match self.transaction_limit {
                Some(l) => Some(l as int),
                None => None,
            },
            cargo_per_unit: self.cargo_per_unit as int,
        }
    }
}

struct ProductEntry {
    name: String,
    info: ProductInfo,
}

/// The catalogue of manufactured goods.
pub struct ProductKnowledge {
    products: Vec<ProductEntry>,
}

/// Facts about a good with the given preferred traits, price range and transaction limit,
/// one cargo unit per unit of good.
pub open spec fn facts(traits: Seq<Seq<char>>, low: int, high: int, limit: int) -> ProductFacts {
    ProductFacts { traits, low, high, limit: Some(limit), cargo_per_unit: 1 }
}

/// The catalogue that [`ProductKnowledge::new`] builds.
pub open spec fn standard_catalogue() -> Seq<(Seq<char>, ProductFacts)> {
    seq![
        ("ELECTRONICS"@, facts(seq!["HIGH_TECH"@, "MARKETPLACE"@], 1000, 2000, 20)),
        ("MACHINERY"@, facts(seq!["INDUSTRIAL"@, "MARKETPLACE"@], 800, 1500, 15)),
        ("MEDICINE"@, facts(seq!["RESEARCH"@, "MARKETPLACE"@], 600, 1200, 25)),
        ("FOOD"@, facts(seq!["AGRICULTURAL"@, "MARKETPLACE"@], 300, 800, 30)),
        ("CLOTHING"@, facts(seq!["MARKETPLACE"@, "INDUSTRIAL"@], 400, 900, 25)),
        ("TOOLS"@, facts(seq!["INDUSTRIAL"@, "MARKETPLACE"@], 500, 1000, 20)),
        ("WEAPONS"@, facts(seq!["MILITARY"@, "INDUSTRIAL"@, "MARKETPLACE"@], 1200, 2500, 10)),
        ("DRUGS"@, facts(seq!["RESEARCH"@, "MARKETPLACE"@], 800, 1800, 15)),
        ("EQUIPMENT"@, facts(seq!["INDUSTRIAL"@, "MARKETPLACE"@], 600, 1400, 15)),
        ("JEWELRY"@, facts(seq!["MARKETPLACE"@], 1000, 3000, 10)),
    ]
}

/// The facts listed first under `name` in `entries`.
pub open spec fn lookup(entries: Seq<(Seq<char>, ProductFacts)>, name: Seq<char>) -> Option<ProductFacts>
    decreases entries.len(),
{
    if entries.len() == 0 {
        None
    } else if entries[0].0 == name {
        Some(entries[0].1)
    } else {
        lookup(entries.drop_first(), name)
    }
}

/// The highest unit price that counts as reasonable for a good with the given facts.
pub open spec fn max_reasonable_price(f: Option<ProductFacts>) -> int {
    match f {
        Some(info) => info.high * 2,
        None => 5000,
    }
}

/// Whether `price` is a reasonable unit price for a good with the given facts.
pub open spec fn reasonable_price(f: Option<ProductFacts>, price: int) -> bool {
    match f {
        Some(info) => info.low <= price && price <= info.high * 2,
        None => price <= 5000,
    }
}

fn make_info(traits: Vec<&'static str>, low: i64, high: i64, limit: i32) -> (r: ProductInfo)
    ensures
        r@ == facts(traits@.map_values(|t: &'static str| t@), low as int, high as int, limit as int),
        r.preferred_waypoint_traits@ == traits@,
{
    ProductInfo {
        preferred_waypoint_traits: traits,
        typical_price_range: (low, high),
        transaction_limit: Some(limit),
        cargo_per_unit: 1,
    }
}

fn list1(a: &'static str) -> (r: Vec<&'static str>)
    ensures
        r@.map_values(|t: &'static str| t@) == seq![a@],
{
    let mut r: Vec<&'static str> = Vec::new();
    r.push(a);
    assert(r@.map_values(|t: &'static str| t@) =~= seq![a@]);
    r
}

fn list2(a: &'static str, b: &'static str) -> (r: Vec<&'static str>)
    ensures
        r@.map_values(|t: &'static str| t@) == seq![a@, b@],
{
    let mut r: Vec<&'static str> = Vec::new();
    r.push(a);
    r.push(b);
    assert(r@.map_values(|t: &'static str| t@) =~= seq![a@, b@]);
    r
}

fn list3(a: &'static str, b: &'static str, c: &'static str) -> (r: Vec<&'static str>)
    ensures
        r@.map_values(|t: &'static str| t@) == seq![a@, b@, c@],
{
    let mut r: Vec<&'static str> = Vec::new();
    r.push(a);
    r.push(b);
    r.push(c);
    assert(r@.map_values(|t: &'static str| t@) =~= seq![a@, b@, c@]);
    r
}

fn entry(name: &str, info: ProductInfo) -> (r: ProductEntry)
    ensures
        r.name@ == name@,
        r.info == info,
{
    ProductEntry { name: String::from_str(name), info }
}

impl ProductKnowledge {
    /// The catalogue's entries: names with their facts, in order.
    pub closed spec fn entries(&self) -> Seq<(Seq<char>, ProductFacts)> {
        self.products@.map_values(|e: ProductEntry| (e.name@, e.info@))
    }

    /// Every price bound in the catalogue lies between -10^12 and 10^12.
    pub closed spec fn wf(&self) -> bool {
        forall|i: int| 0 <= i < self.products@.len() ==> {
            let r = #[trigger] self.products@[i].info.typical_price_range;
            -1_000_000_000_000 <= r.0 <= 1_000_000_000_000 && -1_000_000_000_000 <= r.1 <= 1_000_000_000_000
        }
    }

    /// Builds the standard catalogue of ten manufactured goods.
    pub fn new() -> (pk: Self)
        ensures
            pk.wf(),
            pk.entries() == standard_catalogue(),
    {
        let mut products: Vec<ProductEntry> = Vec::new();
        products.push(entry("ELECTRONICS", make_info(list2("HIGH_TECH", "MARKETPLACE"), 1000, 2000, 20)));
        products.push(entry("MACHINERY", make_info(list2("INDUSTRIAL", "MARKETPLACE"), 800, 1500, 15)));
        products.push(entry("MEDICINE", make_info(list2("RESEARCH", "MARKETPLACE"), 600, 1200, 25)));
        products.push(entry("FOOD", make_info(list2("AGRICULTURAL", "MARKETPLACE"), 300, 800, 30)));
        products.push(entry("CLOTHING", make_info(list2("MARKETPLACE", "INDUSTRIAL"), 400, 900, 25)));
        products.push(entry("TOOLS", make_info(list2("INDUSTRIAL", "MARKETPLACE"), 500, 1000, 20)));
        products.push(entry("WEAPONS", make_info(list3("MILITARY", "INDUSTRIAL", "MARKETPLACE"), 1200, 2500, 10)));
        products.push(entry("DRUGS", make_info(list2("RESEARCH", "MARKETPLACE"), 800, 1800, 15)));
        products.push(entry("EQUIPMENT", make_info(list2("INDUSTRIAL", "MARKETPLACE"), 600, 1400, 15)));
        products.push(entry("JEWELRY", make_info(list1("MARKETPLACE"), 1000, 3000, 10)));
        let pk = ProductKnowledge { products };
        assert(pk.entries() =~= standard_catalogue());
        pk
    }

    /// The facts about `product`, if it is in the catalogue.
    pub fn get_product_info(&self, product: &str) -> (r: Option<&ProductInfo>)
        requires
            self.wf(),
        ensures
            match r {
                Some(info) => lookup(self.entries(), product@) == Some(info@)
                    && -1_000_000_000_000 <= info.typical_price_range.0 <= 1_000_000_000_000
                    && -1_000_000_000_000 <= info.typical_price_range.1 <= 1_000_000_000_000,
                None => lookup(self.entries(), product@) is None,
            },
    {
        let mut i: usize = 0;
        assert(self.entries().skip(0) =~= self.entries());
        while i < self.products.len()
            invariant
                i <= self.products@.len(),
                self.wf(),
                lookup(self.entries(), product@) == lookup(self.entries().skip(i as int), product@),
            decreases self.products@.len() - i,
        {
            assert(self.entries().skip(i as int).drop_first() =~= self.entries().skip(i + 1));
            if text_eq(self.products[i].name.as_str(), product) {
                let r = &self.products[i].info;
                assert(self.products@[i as int].info.typical_price_range == r.typical_price_range);
                return Some(r);
            }
            i = i + 1;
        }
        None
    }

    /// Whether `product` is a manufactured good of the catalogue.
    pub fn is_manufactured_good(&self, product: &str) -> (r: bool)
        requires
            self.wf(),
        ensures
            r == (lookup(self.entries(), product@) is Some),
    {
        self.get_product_info(product).is_some()
    }

    /// The waypoint traits where `product` is best found; MARKETPLACE for goods not in the catalogue.
    pub fn get_preferred_traits(&self, product: &str) -> (r: Vec<&'static str>)
        requires
            self.wf(),
        ensures
            r@.map_values(|t: &'static str| t@) == match lookup(self.entries(), product@) {
                Some(info) => info.traits,
                None => seq!["MARKETPLACE"@],
            },
    {
        match self.get_product_info(product) {
            Some(info) => {
                let r = info.preferred_waypoint_traits.clone();
                assert(r@ =~= info.preferred_waypoint_traits@);
                r
            },
            None => {
                list1("MARKETPLACE")
            },
        }
    }

    /// How many units of `product` one transaction may move, when known.
    pub fn get_transaction_limit(&self, product: &str) -> (r: Option<i32>)
        requires
            self.wf(),
        ensures
            match lookup(self.entries(), product@) {
                Some(info) => match r {
                    Some(l) => info.limit == Some(l as int),
                    None => info.limit is None,
                },
                None => r is None,
            },
    {
        match self.get_product_info(product) {
            Some(info) => info.transaction_limit,
            None => None,
        }
    }

    /// Whether `price` is a reasonable unit price for `product`: within the typical range with up
    /// to twice its top for a catalogued good, at most 5000 otherwise.
    pub fn is_reasonable_price(&self, product: &str, price: i64) -> (r: bool)
        requires
            self.wf(),
        ensures
            r == reasonable_price(lookup(self.entries(), product@), price as int),
    {
        match self.get_product_info(product) {
            Some(info) => price >= info.typical_price_range.0 && price <= info.typical_price_range.1 * 2,
            None => price <= 5000,
        }
    }

    /// The highest reasonable unit price for `product`.
    pub fn get_max_reasonable_price(&self, product: &str) -> (r: i64)
        requires
            self.wf(),
        ensures
            r as int == max_reasonable_price(lookup(self.entries(), product@)),
    {
        match self.get_product_info(product) {
            Some(info) => info.typical_price_range.1 * 2,
            None => 5000,
        }
    }
}

impl Default for ProductKnowledge {
    /// The standard catalogue.
    fn default() -> (pk: Self)
        ensures
            pk.wf(),
            pk.entries() == standard_catalogue(),
    {
        ProductKnowledge::new()
    }
}

} // verus!
