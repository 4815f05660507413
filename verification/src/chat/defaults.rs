//! The phrases that are known without a phrasebook file.
use vstd::prelude::*;

verus! {

/// A phrase: the kind of trigger that it answers, the archetype and the register
/// that it is for (empty where it is for all), and its template.
pub type PhraseRow = (&'static str, &'static str, &'static str, &'static str);

/// A word or more that can stand for a fragment: the fragment's name, the words.
pub type FragmentRow = (&'static str, &'static str);

pub const DEFAULT_FRAGMENTS: [(&'static str, &'static str); 30] = [
    ("wow", "lol"),
    ("wow", "omg"),
    ("wow", "haha"),
    ("wow", "wtf"),
    ("wow", "dude"),
    ("wow", "geez"),
    ("wow", "holy"),
    ("wow", "sheesh"),
    ("easy", "ez"),
    ("easy", "easy"),
    ("easy", "clean"),
    ("easy", "smooth"),
    ("easy", "no sweat"),
    ("easy", "effortless"),
    ("rough", "oof"),
    ("rough", "rough"),
    ("rough", "rip"),
    ("rough", "yikes"),
    ("rough", "brutal"),
    ("rough", "ouch"),
    ("rough", "ugly"),
    ("hype", "let's go"),
    ("hype", "we're cooking"),
    ("hype", "no stopping us"),
    ("hype", "on a roll"),
    ("miss_jab", "hitting with eyes closed"),
    ("miss_jab", "forgot how to make contact"),
    ("miss_jab", "swinging at ghosts"),
    ("miss_jab", "might as well be afk"),
    ("miss_jab", "can't buy a hit"),
];

pub const DEFAULT_PHRASES: [(&'static str, &'static str, &'static str, &'static str); 372] = [
    ("MobKilled", "", "", "nice"),
    ("MobKilled", "", "", "gg"),
    ("MobKilled", "", "", "good fight"),
    ("MobKilled", "", "", "{mob} down"),
    ("MobKilled", "", "", "{$easy}"),
    ("MobKilled", "", "", "another one"),
    ("MobKilled", "", "", "next"),
    ("MobKilled", "", "", "on to the next"),
    ("MobKilled", "ChaoticNarrator", "", "yeah buddy"),
    ("MobKilled", "ChaoticNarrator", "", "hell yeah"),
    ("MobKilled", "ChaoticNarrator", "", "got em"),
    ("MobKilled", "ChaoticNarrator", "", "nice kill"),
    ("MobKilled", "ChaoticNarrator", "", "told you we'd get it"),
    ("MobKilled", "ChaoticNarrator", "", "{mob} had no chance"),
    ("MobKilled", "ChaoticNarrator", "", "that's how you do it"),
    ("MobKilled", "ChaoticNarrator", "", "one down, {$hype}"),
    ("MobKilled", "ChaoticNarrator", "Elated", "YEAH BUDDY"),
    ("MobKilled", "ChaoticNarrator", "Elated", "lets go!!"),
    ("MobKilled", "ChaoticNarrator", "Elated", "we are COOKING"),
    ("MobKilled", "ChaoticNarrator", "Elated", "absolutely unstoppable right now"),
    ("MobKilled", "ChaoticNarrator", "Elated", "hell yeah brother"),
    ("MobKilled", "ChaoticNarrator", "Frustrated", "finally"),
    ("MobKilled", "ChaoticNarrator", "Frustrated", "took long enough"),
    ("MobKilled", "ChaoticNarrator", "Frustrated", "ok"),
    ("MobKilled", "ChaoticNarrator", "Frustrated", "bout time"),
    ("MobKilled", "QuietAnchor", "", "nice"),
    ("MobKilled", "QuietAnchor", "", "gg"),
    ("MobKilled", "QuietAnchor", "", "{mob} down"),
    ("MobKilled", "QuietAnchor", "", "good"),
    ("MobKilled", "RaidLeader", "", "next target"),
    ("MobKilled", "RaidLeader", "", "good, moving on"),
    ("MobKilled", "RaidLeader", "", "looting and moving"),
    ("MobKilled", "RaidLeader", "", "on to the next"),
    ("MobKilled", "ReactiveObserver", "", "gg"),
    ("MobKilled", "ReactiveObserver", "", "nice"),
    ("MobKilled", "ReactiveObserver", "", "good one"),
    ("PlayerDied", "", "", "rip {player}"),
    ("PlayerDied", "", "", "gg {player}"),
    ("PlayerDied", "", "", "f"),
    ("PlayerDied", "", "", "rip"),
    ("PlayerDied", "", "", "ouch"),
    ("PlayerDied", "ChaoticNarrator", "", "rip {player} lol"),
    ("PlayerDied", "ChaoticNarrator", "", "oh no"),
    ("PlayerDied", "ChaoticNarrator", "", "f in chat for {player}"),
    ("PlayerDied", "ChaoticNarrator", "", "we'll get em next time {player}"),
    ("PlayerDied", "ChaoticNarrator", "", "{$rough} {player}"),
    ("PlayerDied", "ChaoticNarrator", "Frustrated", "come on guys"),
    ("PlayerDied", "ChaoticNarrator", "Frustrated", "we gotta stop dying"),
    ("PlayerDied", "ChaoticNarrator", "Frustrated", "that's on me, my bad"),
    ("PlayerDied", "ChaoticNarrator", "Frustrated", "ugh"),
    ("PlayerDied", "ChaoticNarrator", "Frustrated", "okay we need to tighten up"),
    ("PlayerDied", "QuietAnchor", "", "rip"),
    ("PlayerDied", "QuietAnchor", "", "f"),
    ("PlayerDied", "QuietAnchor", "", "gg {player}"),
    ("NearDeathSave", "", "", "nice save {healer}"),
    ("NearDeathSave", "", "", "good heal {healer}"),
    ("NearDeathSave", "", "", "whew, close one"),
    ("NearDeathSave", "", "", "{target} living on the edge"),
    ("NearDeathSave", "", "", "{$wow}... {healer} with the save"),
    ("NearDeathSave", "ChaoticNarrator", "", "jesus {target}"),
    ("NearDeathSave", "ChaoticNarrator", "", "nearly lost you there {target}"),
    ("NearDeathSave", "ChaoticNarrator", "", "{healer} is carrying this group"),
    ("NearDeathSave", "ChaoticNarrator", "", "good eyes {healer}"),
    ("NearDeathSave", "ChaoticNarrator", "", "okay I saw my life flash before my eyes just then"),
    ("NearDeathSave", "QuietAnchor", "", "nice"),
    ("NearDeathSave", "QuietAnchor", "", "good heal"),
    ("NearDeathSave", "QuietAnchor", "", "close"),
    ("PlayerNearDeath", "", "", "HEAL {player}!"),
    ("PlayerNearDeath", "", "", "{player}!!"),
    ("PlayerNearDeath", "", "", "hp {player}!"),
    ("PlayerNearDeath", "", "", "watch {player}!"),
    ("PlayerNearDeath", "ChaoticNarrator", "", "HEAL {player}!"),
    ("PlayerNearDeath", "ChaoticNarrator", "", "oh no {player}"),
    ("PlayerNearDeath", "ChaoticNarrator", "", "{player} is going down!"),
    ("PlayerNearDeath", "ChaoticNarrator", "", "someone on {player}!"),
    ("PlayerNearDeath", "ChaoticNarrator", "", "{$rough} {player}!!"),
    ("SpellResisted", "", "", "it resisted again??"),
    ("SpellResisted", "", "", "slow is not landing"),
    ("SpellResisted", "", "", "keep trying"),
    ("SpellResisted", "", "", "this mob is immune or something"),
    ("SpellResisted", "ChaoticNarrator", "", "oh come on"),
    ("SpellResisted", "ChaoticNarrator", "", "are you kidding me"),
    ("SpellResisted", "ChaoticNarrator", "", "every single time"),
    ("SpellResisted", "ChaoticNarrator", "", "this mob said no"),
    ("SpellResisted", "ChaoticNarrator", "", "we might just tank it"),
    ("SpellResisted", "ChaoticNarrator", "Frustrated", "I am DONE with this resist mechanic"),
    ("SpellResisted", "ChaoticNarrator", "Frustrated", "forget it, just burn it down"),
    ("SpellResisted", "ChaoticNarrator", "Frustrated", "this is actually insane"),
    ("SpellResisted", "QuietAnchor", "", "heh"),
    ("SpellResisted", "QuietAnchor", "", "resist"),
    ("SpellResisted", "QuietAnchor", "", "again"),
    ("ResistStreak", "", "", "that's {count} resists in a row"),
    ("ResistStreak", "", "", "the slow curse continues"),
    ("ResistStreak", "", "", "okay forget slow, just burn it"),
    ("ResistStreak", "ChaoticNarrator", "", "{count} resists?? what is this mob made of"),
    ("ResistStreak", "ChaoticNarrator", "", "I've never seen anything this resistant"),
    ("ResistStreak", "ChaoticNarrator", "", "okay we are just tanking this full speed"),
    ("Wipe", "", "", "gg"),
    ("Wipe", "", "", "rip"),
    ("Wipe", "", "", "that happened"),
    ("Wipe", "", "", "f"),
    ("Wipe", "", "", "well that sucked"),
    ("Wipe", "ChaoticNarrator", "", "okay that was a disaster lol"),
    ("Wipe", "ChaoticNarrator", "", "we got absolutely wrecked"),
    ("Wipe", "ChaoticNarrator", "", "alright, regroup"),
    ("Wipe", "ChaoticNarrator", "", "that sucked, let's go again"),
    ("Wipe", "ChaoticNarrator", "", "I'm not even mad, that was impressive"),
    ("Wipe", "ChaoticNarrator", "Frustrated", "I cannot believe that"),
    ("Wipe", "ChaoticNarrator", "Frustrated", "come on guys, we're better than this"),
    ("Wipe", "ChaoticNarrator", "Frustrated", "okay what went wrong there"),
    ("Wipe", "QuietAnchor", "", "rip"),
    ("Wipe", "QuietAnchor", "", "gg"),
    ("Wipe", "QuietAnchor", "", "heh"),
    ("CleanStreak", "", "", "clean sweep"),
    ("CleanStreak", "", "", "nice work"),
    ("CleanStreak", "", "", "we're in the zone"),
    ("CleanStreak", "", "", "{$hype}"),
    ("CleanStreak", "ChaoticNarrator", "", "{count} clean kills, yeah buddy"),
    ("CleanStreak", "ChaoticNarrator", "", "group is firing on all cylinders"),
    ("CleanStreak", "ChaoticNarrator", "", "I love when a session goes like this"),
    ("CleanStreak", "ChaoticNarrator", "", "okay seriously great group tonight"),
    ("Incoming", "", "", "incoming"),
    ("Incoming", "", "", "inc"),
    ("Incoming", "", "", "incoming {count}"),
    ("Incoming", "", "", "on the way"),
    ("Incoming", "", "", "pulling {mob}"),
    ("Incoming", "", "", "got one, incoming"),
    ("Incoming", "ChaoticNarrator", "", "pulling now"),
    ("Incoming", "ChaoticNarrator", "", "incoming {count}, get ready"),
    ("Incoming", "ChaoticNarrator", "", "{mob} incoming"),
    ("Incoming", "ChaoticNarrator", "", "pulling {mob}"),
    ("Incoming", "QuietAnchor", "", "inc"),
    ("Incoming", "QuietAnchor", "", "incoming"),
    ("Incoming", "QuietAnchor", "", "pulling {count}"),
    ("Incoming", "QuietAnchor", "", "got {mob}"),
    ("Incoming", "RaidLeader", "", "incoming {count}"),
    ("Incoming", "RaidLeader", "", "on the way"),
    ("Incoming", "RaidLeader", "", "heads up {count} up"),
    ("Incoming", "RaidLeader", "", "pulling {mob}, hold positions"),
    ("CasterOom", "", "", "oom"),
    ("CasterOom", "", "", "med please"),
    ("CasterOom", "", "", "oom, 1 sec"),
    ("CasterOom", "", "", "need to sit"),
    ("CasterOom", "", "", "running on fumes"),
    ("CasterOom", "", "", "almost dry"),
    ("CasterOom", "ChaoticNarrator", "", "oom, hang on"),
    ("CasterOom", "ChaoticNarrator", "", "I have like zero mana left"),
    ("CasterOom", "ChaoticNarrator", "", "don't pull, I'm oom"),
    ("CasterOom", "ChaoticNarrator", "", "give me a sec to med"),
    ("CasterOom", "ChaoticNarrator", "", "if you pull right now I literally cannot help you"),
    ("CasterOom", "QuietAnchor", "", "oom"),
    ("CasterOom", "QuietAnchor", "", "sec"),
    ("CasterOom", "QuietAnchor", "", "med"),
    ("GoodLoot", "", "", "nice drop"),
    ("GoodLoot", "", "", "ooh {item}"),
    ("GoodLoot", "", "", "good loot"),
    ("GoodLoot", "", "", "let's go"),
    ("GoodLoot", "ChaoticNarrator", "", "oh hell yeah {item}"),
    ("GoodLoot", "ChaoticNarrator", "", "that's what I'm talking about"),
    ("GoodLoot", "ChaoticNarrator", "", "{item} let's go!!"),
    ("GoodLoot", "ChaoticNarrator", "", "yeah buddy we're eating tonight"),
    ("GoodLoot", "ChaoticNarrator", "", "finally some good loot"),
    ("GoodLoot", "ChaoticNarrator", "Elated", "YEAH BUDDY {item}"),
    ("GoodLoot", "ChaoticNarrator", "Elated", "okay this is the run"),
    ("GoodLoot", "ChaoticNarrator", "Elated", "I called it, I called it"),
    ("GoodLoot", "ChaoticNarrator", "Elated", "best session ever"),
    ("GoodLoot", "QuietAnchor", "", "nice"),
    ("GoodLoot", "QuietAnchor", "", "ooh"),
    ("GoodLoot", "QuietAnchor", "", "good drop"),
    ("GoodLoot", "RaidLeader", "", "{item}"),
    ("GoodLoot", "RaidLeader", "", "nice, who needs that"),
    ("GoodLoot", "RaidLeader", "", "good drop"),
    ("BadLoot", "", "", "meh"),
    ("BadLoot", "", "", "oof"),
    ("BadLoot", "", "", "trash"),
    ("BadLoot", "", "", "{item}... pass"),
    ("BadLoot", "ChaoticNarrator", "", "lol what is this {item}"),
    ("BadLoot", "ChaoticNarrator", "", "garbage loot as usual"),
    ("BadLoot", "ChaoticNarrator", "", "the loot gods hate us"),
    ("BadLoot", "ChaoticNarrator", "", "okay moving on"),
    ("BadLoot", "ChaoticNarrator", "", "{item} why is this even in the game"),
    ("BadLoot", "ChaoticNarrator", "Frustrated", "I'm done with this loot table"),
    ("BadLoot", "ChaoticNarrator", "Frustrated", "we genuinely cannot catch a break"),
    ("BadLoot", "ChaoticNarrator", "Frustrated", "whoever designed this loot table..."),
    ("BadLoot", "QuietAnchor", "", "meh"),
    ("BadLoot", "QuietAnchor", "", "heh"),
    ("BadLoot", "QuietAnchor", "", "gg"),
    ("LevelUp", "", "", "grats {who}!"),
    ("LevelUp", "", "", "gz {who}"),
    ("LevelUp", "", "", "level {level}!"),
    ("LevelUp", "", "", "nice ding {who}"),
    ("LevelUp", "ChaoticNarrator", "", "yeah buddy {who} hit {level}!"),
    ("LevelUp", "ChaoticNarrator", "", "LETS GO {who}"),
    ("LevelUp", "ChaoticNarrator", "", "grats!! {level} is a good level"),
    ("LevelUp", "ChaoticNarrator", "", "oh shit {who} dinged"),
    ("LevelUp", "ChaoticNarrator", "", "{who} with the ding, yeah buddy"),
    ("LevelUp", "QuietAnchor", "", "gz {who}"),
    ("LevelUp", "QuietAnchor", "", "grats"),
    ("LevelUp", "QuietAnchor", "", "nice"),
    ("RlDeparture", "", "", "brb"),
    ("RlDeparture", "", "", "sec"),
    ("RlDeparture", "", "", "one sec"),
    ("RlDeparture", "", "", "afk"),
    ("RlDeparture", "ChaoticNarrator", "", "brb one sec"),
    ("RlDeparture", "ChaoticNarrator", "", "gonna grab a snack real quick"),
    ("RlDeparture", "ChaoticNarrator", "", "afk a couple mins"),
    ("RlDeparture", "ChaoticNarrator", "", "brb {rl_reason}"),
    ("RlDeparture", "ChaoticNarrator", "", "sec, {rl_reason}"),
    ("RlDeparture", "ChaoticNarrator", "", "one sec, need to deal with something"),
    ("RlDeparture", "QuietAnchor", "", "brb"),
    ("RlDeparture", "QuietAnchor", "", "sec"),
    ("RlDeparture", "QuietAnchor", "", "afk"),
    ("RlReturn", "", "", "back"),
    ("RlReturn", "", "", "ok back"),
    ("RlReturn", "", "", "back, what I miss"),
    ("RlReturn", "ChaoticNarrator", "", "ok back"),
    ("RlReturn", "ChaoticNarrator", "", "sorry, back"),
    ("RlReturn", "ChaoticNarrator", "", "back, what happened"),
    ("RlReturn", "ChaoticNarrator", "", "ok back, did we die?"),
    ("RlReturn", "ChaoticNarrator", "", "back. she's {rl_context} lol"),
    ("RlReturn", "ChaoticNarrator", "", "sorry about that, back now"),
    ("RlReturn", "QuietAnchor", "", "back"),
    ("RlReturn", "QuietAnchor", "", "ok"),
    ("RlReturn", "QuietAnchor", "", "back."),
    ("RepeatMiss", "", "", "{player} having a rough round"),
    ("RepeatMiss", "", "", "{player} might need a new weapon"),
    ("RepeatMiss", "", "", "lol {player}"),
    ("RepeatMiss", "", "", "{$wow} {player}, {$miss_jab}"),
    ("RepeatMiss", "ChaoticNarrator", "", "did you equip a weapon {player}"),
    ("RepeatMiss", "ChaoticNarrator", "", "lol {player} can't buy a hit"),
    ("RepeatMiss", "ChaoticNarrator", "", "{player} and {mob} are just vibing at this point"),
    ("RepeatMiss", "ChaoticNarrator", "", "maybe try actually swinging {player}"),
    ("RepeatMiss", "ChaoticNarrator", "", "{player} {$miss_jab}"),
    ("RepeatMiss", "ChaoticNarrator", "", "{$wow} {player} is {$miss_jab}"),
    ("RepeatMiss", "QuietAnchor", "", "lol {player}"),
    ("RepeatMiss", "QuietAnchor", "", "heh"),
    ("RepeatMiss", "QuietAnchor", "", "{player}..."),
    ("BigHit", "", "", "nice {ability}!"),
    ("BigHit", "", "", "{src} with the big hit"),
    ("BigHit", "", "", "{src} cooking"),
    ("BigHit", "", "", "dayum {src}"),
    ("BigHit", "", "", "BOOM"),
    ("BigHit", "ChaoticNarrator", "", "{src} you absolute monster"),
    ("BigHit", "ChaoticNarrator", "", "okay {src} calm down lol"),
    ("BigHit", "ChaoticNarrator", "", "{src} said delete {tgt}"),
    ("BigHit", "ChaoticNarrator", "", "I felt that from here"),
    ("BigHit", "ChaoticNarrator", "", "yeah buddy {src}!!"),
    ("BigHit", "ChaoticNarrator", "", "{src} is {$hype}"),
    ("BigHit", "QuietAnchor", "", "nice"),
    ("BigHit", "QuietAnchor", "", "{$wow} {src}"),
    ("BigHit", "QuietAnchor", "", "damn"),
    ("Generic", "", "", "ready when you are"),
    ("Generic", "", "", "nice"),
    ("Generic", "", "", "lol"),
    ("Generic", "", "", "how's everyone's health?"),
    ("Generic", "", "", "good fight"),
    ("Generic", "", "", "pull whenever"),
    ("Generic", "", "", "eyes open"),
    ("Generic", "", "", "this is a good camp"),
    ("Generic", "", "", "okay med break"),
    ("Generic", "", "", "one more"),
    ("Generic", "", "", "this mob hits like a truck"),
    ("Generic", "", "", "exp is looking good tonight"),
    ("Generic", "", "", "we got this"),
    ("Generic", "", "", "stay focused"),
    ("Generic", "", "", "{$hype}"),
    ("Generic", "", "", "I could do this all night"),
    ("Generic", "", "", "solid group tonight"),
    ("Generic", "", "", "good pace"),
    ("Generic", "", "", "what time is it even"),
    ("Generic", "", "", "I need sleep but one more pull"),
    ("Generic", "ChaoticNarrator", "", "yeah buddy"),
    ("Generic", "ChaoticNarrator", "", "this is the run"),
    ("Generic", "ChaoticNarrator", "", "I love a clean pull"),
    ("Generic", "ChaoticNarrator", "", "okay seriously having fun tonight"),
    ("Generic", "ChaoticNarrator", "", "lol classic"),
    ("Generic", "ChaoticNarrator", "", "best group I've been in"),
    ("Generic", "ChaoticNarrator", "", "I trust this group"),
    ("Generic", "ChaoticNarrator", "", "I feel unstoppable right now"),
    ("Generic", "QuietAnchor", "", "heh"),
    ("Generic", "QuietAnchor", "", "nice"),
    ("Generic", "QuietAnchor", "", "yeah"),
    ("Generic", "QuietAnchor", "", "ready"),
    ("Generic", "QuietAnchor", "", "good"),
    ("Generic", "RaidLeader", "", "good job everyone"),
    ("Generic", "RaidLeader", "", "keep the pace"),
    ("Generic", "RaidLeader", "", "nice work"),
    ("Generic", "RaidLeader", "", "stay on target"),
    ("Generic", "RaidLeader", "", "eyes open"),
    ("Generic", "ChaoticNarrator", "Elated", "I am having the BEST time right now"),
    ("Generic", "ChaoticNarrator", "Elated", "this is exactly why I play this game"),
    ("Generic", "ChaoticNarrator", "Elated", "okay we are legitimately unstoppable"),
    ("Generic", "ChaoticNarrator", "Elated", "every pull just goes, it's beautiful"),
    ("Generic", "ChaoticNarrator", "Elated", "I want to screenshot this group"),
    ("Generic", "ChaoticNarrator", "Tired", "okay I might be falling asleep lol"),
    ("Generic", "ChaoticNarrator", "Tired", "one more then I really gotta sleep"),
    ("Generic", "ChaoticNarrator", "Tired", "wife's gonna kill me, one more pull"),
    ("Generic", "ChaoticNarrator", "Tired", "my eyes are literally closing"),
    ("Generic", "ChaoticNarrator", "Tired", "I keep zoning out, sorry"),
    ("ExtraMobCC", "", "", "CC on {mob}"),
    ("ExtraMobCC", "", "", "got the extra, don't touch it"),
    ("ExtraMobCC", "", "", "mez on {mob}, leave it"),
    ("ExtraMobCC", "", "", "rooted, focus main mob"),
    ("ExtraMobCC", "", "", "extra is CC'd"),
    ("ExtraMobCC", "QuietAnchor", "", "got {mob}"),
    ("ExtraMobCC", "QuietAnchor", "", "cc'd"),
    ("ExtraMobCC", "QuietAnchor", "", "mez on {mob}"),
    ("ExtraMobCC", "QuietAnchor", "", "rooted"),
    ("ExtraMobCC", "RaidLeader", "", "CC on {mob}"),
    ("ExtraMobCC", "RaidLeader", "", "hold {mob}, focus main"),
    ("ExtraMobCC", "RaidLeader", "", "extra is handled"),
    ("BeingHit", "", "", "add on me"),
    ("BeingHit", "", "", "one on me, need help"),
    ("BeingHit", "", "", "I've got one on me!"),
    ("BeingHit", "", "", "{mob} is on me!"),
    ("BeingHit", "", "", "someone get this off me"),
    ("BeingHit", "", "", "off me please!"),
    ("BeingHit", "", "", "someone peel this"),
    ("BeingHit", "QuietAnchor", "", "add on me"),
    ("BeingHit", "QuietAnchor", "", "one on me, need help"),
    ("BeingHit", "QuietAnchor", "", "{mob} on me"),
    ("MultiKill", "", "", "all down"),
    ("MultiKill", "", "", "clean sweep"),
    ("MultiKill", "", "", "handled"),
    ("MultiKill", "", "", "nice work on the pack"),
    ("MultiKill", "", "", "entire pack cleared"),
    ("MultiKill", "ChaoticNarrator", "", "yeah buddy!! ALL of them"),
    ("MultiKill", "ChaoticNarrator", "", "we absolutely handled that pack"),
    ("MultiKill", "ChaoticNarrator", "", "clean sweep, that's what I'm talking about"),
    ("MultiKill", "ChaoticNarrator", "", "every. single. one."),
    ("MultiKill", "ChaoticNarrator", "", "okay we do not wipe, I said what I said"),
    ("MultiKill", "ChaoticNarrator", "Elated", "WE ARE UNTOUCHABLE"),
    ("MultiKill", "ChaoticNarrator", "Elated", "nothing can stop us right now"),
    ("MultiKill", "ChaoticNarrator", "Elated", "entire pack, zero effort, YEAH BUDDY"),
    ("MultiKill", "QuietAnchor", "", "handled"),
    ("MultiKill", "QuietAnchor", "", "clean"),
    ("MultiKill", "QuietAnchor", "", "gg"),
    ("MultiKill", "RaidLeader", "", "good, moving on"),
    ("MultiKill", "RaidLeader", "", "all down, next"),
    ("MultiKill", "RaidLeader", "", "pack cleared"),
    ("TankDying", "", "", "TANK!!"),
    ("TankDying", "", "", "healer wake up"),
    ("TankDying", "", "", "HEAL {player}!!"),
    ("TankDying", "", "", "uh oh"),
    ("TankDying", "", "", "{player}!!"),
    ("TankDying", "ChaoticNarrator", "", "TANK IS DYING"),
    ("TankDying", "ChaoticNarrator", "", "oh no oh no oh no"),
    ("TankDying", "ChaoticNarrator", "", "CLR NOW"),
    ("TankDying", "ChaoticNarrator", "", "{player} is going down!!"),
    ("TankDying", "ChaoticNarrator", "", "EMERGENCY HEALS {player}"),
    ("TankDying", "ChaoticNarrator", "", "HEAL HIM HEAL HIM"),
    ("TankDying", "QuietAnchor", "", "HEAL {player}"),
    ("TankDying", "QuietAnchor", "", "tank"),
    ("TankDying", "QuietAnchor", "", "CH {player}"),
    ("TankDying", "RaidLeader", "", "CLR on {player} NOW"),
    ("TankDying", "RaidLeader", "", "healer on tank"),
    ("TankDying", "RaidLeader", "", "all heals on {player}"),
    ("HealerMana", "", "", "{pct}% mana"),
    ("HealerMana", "", "", "at {pct}%"),
    ("HealerMana", "", "", "low mana"),
    ("HealerMana", "", "", "need to sit"),
    ("HealerMana", "", "", "conserving mana"),
    ("HealerMana", "ChaoticNarrator", "", "oom at {pct}%, hang on"),
    ("HealerMana", "ChaoticNarrator", "", "I'm at {pct}%, need to conserve"),
    ("HealerMana", "ChaoticNarrator", "", "running dry, {pct}%"),
    ("HealerMana", "ChaoticNarrator", "", "almost out of mana lol"),
    ("HealerMana", "ChaoticNarrator", "", "don't pull, I'm at {pct}%"),
    ("HealerMana", "QuietAnchor", "", "{pct}m"),
    ("HealerMana", "QuietAnchor", "", "oom"),
    ("HealerMana", "QuietAnchor", "", "{pct}%"),
    ("HealerMana", "RaidLeader", "", "{pct}% mana, slowing down"),
    ("HealerMana", "RaidLeader", "", "healers conserve mana"),
];

} // verus!
