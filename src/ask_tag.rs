use vstd::prelude::*;

verus! {

/// The label of a yes/no question put to a player.
#[derive(Clone, Debug)]
pub struct AskOptionTag {
    pub tag: String,
    pub localized_prompt: String,
    pub default: Option<bool>,
}

impl AskOptionTag {
    pub fn new(tag: &str, localized_prompt: &str, default: Option<bool>) -> (r: AskOptionTag)
        ensures
            r.tag@ == tag@,
            r.localized_prompt@ == localized_prompt@,
            r.default == default,
    {
        AskOptionTag { tag: tag.to_owned(), localized_prompt: localized_prompt.to_owned(), default }
    }

    /// A field-by-field copy.
    pub fn duplicate(&self) -> (r: AskOptionTag)
        ensures
            r == *self,
    {
        AskOptionTag {
            tag: self.tag.clone(),
            localized_prompt: self.localized_prompt.clone(),
            default: self.default,
        }
    }
}

/// The label of a request to choose cards.
#[derive(Clone, Debug)]
pub struct AskCardTag {
    pub tag: String,
    pub localized_prompt: String,
}

impl AskCardTag {
    pub fn new(tag: &str, localized_prompt: &str) -> (r: AskCardTag)
        ensures
            r.tag@ == tag@,
            r.localized_prompt@ == localized_prompt@,
    {
        AskCardTag { tag: tag.to_owned(), localized_prompt: localized_prompt.to_owned() }
    }

    /// A field-by-field copy.
    pub fn duplicate(&self) -> (r: AskCardTag)
        ensures
            r == *self,
    {
        AskCardTag { tag: self.tag.clone(), localized_prompt: self.localized_prompt.clone() }
    }
}

} // verus!
