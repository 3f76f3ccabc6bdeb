//! Names for the tokens of the Chinchilla vocabulary, by which the corpora are written.

use vstd::prelude::*;

verus! {

/// `<pad>`
pub const PAD: usize = 0;

/// `<eos>`
pub const EOS: usize = 1;

/// `<user>`
pub const USER: usize = 2;

/// `<bot>`
pub const BOT: usize = 3;

/// `0`
pub const D0: usize = 4;

/// `1`
pub const D1: usize = 5;

/// `2`
pub const D2: usize = 6;

/// `3`
pub const D3: usize = 7;

/// `4`
pub const D4: usize = 8;

/// `5`
pub const D5: usize = 9;

/// `+`
pub const PLUS: usize = 10;

/// `-`
pub const MINUS: usize = 11;

/// `=`
pub const EQUALS: usize = 12;

/// `кот`
pub const CAT: usize = 13;

/// `пес`
pub const DOG: usize = 14;

/// `животное`
pub const ANIMAL: usize = 15;

/// `друг`
pub const FRIEND: usize = 16;

/// `это`
pub const IS: usize = 17;

/// `да`
pub const YES: usize = 18;

/// `нет`
pub const NO: usize = 19;

/// `кто`
pub const WHO: usize = 20;

/// `6`
pub const D6: usize = 21;

/// `7`
pub const D7: usize = 22;

/// `8`
pub const D8: usize = 23;

/// `9`
pub const D9: usize = 24;

/// `*`
pub const TIMES: usize = 25;

/// `волк`
pub const WOLF: usize = 26;

/// `лиса`
pub const FOX: usize = 27;

/// `заяц`
pub const HARE: usize = 28;

/// `рыба`
pub const FISH: usize = 29;

/// `птица`
pub const BIRD: usize = 30;

/// `зверь`
pub const BEAST: usize = 31;

/// `хищник`
pub const PREDATOR: usize = 32;

/// `человек`
pub const HUMAN: usize = 33;

/// `враг`
pub const FOE: usize = 34;

/// `где`
pub const WHERE: usize = 35;

/// `что`
pub const WHAT: usize = 36;

/// `река`
pub const RIVER: usize = 37;

/// `небо`
pub const SKY: usize = 38;

/// `лес`
pub const FOREST: usize = 39;

/// `дом`
pub const HOME: usize = 40;

/// `/`
pub const OVER: usize = 41;

/// `медведь`
pub const BEAR: usize = 42;

/// `змея`
pub const SNAKE: usize = 43;

/// `щука`
pub const PIKE: usize = 44;

/// `дуб`
pub const OAK: usize = 45;

/// `дерево`
pub const TREE: usize = 46;

/// `тайга`
pub const TAIGA: usize = 47;

/// `нора`
pub const BURROW: usize = 48;

/// `поле`
pub const FIELD: usize = 49;

/// `трава`
pub const GRASS: usize = 50;

/// `вода`
pub const WATER: usize = 51;

/// `ест`
pub const EATS: usize = 52;

/// `не`
pub const NOT: usize = 53;

/// `как`
pub const HOW: usize = 54;

/// `почему`
pub const WHY: usize = 55;

/// `если`
pub const IF: usize = 56;

/// `то`
pub const SO: usize = 57;

/// `или`
pub const OR: usize = 58;

/// `наука`
pub const SCIENCE: usize = 59;

/// `число`
pub const NUMBER: usize = 60;

/// `модель`
pub const MODEL: usize = 61;

/// `разум`
pub const MIND: usize = 62;

/// `знание`
pub const KNOWLEDGE: usize = 63;

/// `логика`
pub const LOGIC: usize = 64;

} // verus!
