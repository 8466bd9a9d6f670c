use vstd::prelude::*;

verus! {

/// One adoption listing as the remote directory reports it.  Produced by the
/// gateway layer, never mutated afterwards.
pub struct AnimalData {
    pub name: String,
    pub breed: String,
    pub description: String,
    pub age: String,
    pub size: String,
    pub url: String,
    pub city: String,
    pub state: String,
    pub good_with: String,
    pub photo_url: Option<String>,
}

/// The compatibility line shown on a card, as a function of the three
/// compatibility flags the directory reports.
pub open spec fn good_with_spec(children: bool, dogs: bool, cats: bool) -> Seq<char> {
    if children && dogs && cats {
        "Good with: children, dogs, andcats"@
    } else if children && dogs {
        "Good with: children, dogs"@
    } else if children && cats {
        "Good with: childrenand cats"@
    } else if dogs && cats {
        "Good with: dogsand cats"@
    } else if children {
        "Good with: children"@
    } else if dogs {
        "Good with: dogs"@
    } else if cats {
        "Good with: cats"@
    } else {
        ""@
    }
}

/// Renders the compatibility flags of a listing as the card's
/// "Good with: ..." line; an empty string when no flag is set.
pub fn get_good_with(children: bool, dogs: bool, cats: bool) -> (r: String)
    ensures
        r@ == good_with_spec(children, dogs, cats),
{
    if children && dogs && cats {
        "Good with: children, dogs, andcats".to_owned()
    } else if children && dogs {
        "Good with: children, dogs".to_owned()
    } else if children && cats {
        "Good with: childrenand cats".to_owned()
    } else if dogs && cats {
        "Good with: dogsand cats".to_owned()
    } else if children {
        "Good with: children".to_owned()
    } else if dogs {
        "Good with: dogs".to_owned()
    } else if cats {
        "Good with: cats".to_owned()
    } else {
        "".to_owned()
    }
}

} // verus!
