use server::advance::Advance;
use server::cache::Cache;
use server::city_pieces::Building;

#[test]
fn cache_looks_up_content() {
    let c = Cache::new();
    assert_eq!(c.all_advances.len(), 48);
    let h = c.get_advance(Advance::Husbandry);
    assert_eq!(h.advance, Advance::Husbandry);
    assert_eq!(h.name, "Husbandry");
    assert_eq!(c.get_building_advance(Building::Academy), Advance::Writing);
    assert_eq!(c.get_building_advance(Building::Port), Advance::Fishing);
    assert_eq!(c.get_building_advance(Building::Observatory), Advance::Math);
    assert_eq!(c.get_advance_group("Science").name, "Science");
    let g = c.get_government("Democracy");
    assert_eq!(g.name, "Democracy");
    assert_eq!(g.advances[0].advance, Advance::Voting);
}
