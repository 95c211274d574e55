# Dice Roller

Rolls dice and flips coins for an assistant, reads dice notation such as `2d10`
or ` D20 `, and fires a trigger for every die.

`src/` is the verified library:

- `roller`: the settings, the requests, and the answers to them.
- `notation`: how dice notation is read.
- `generator`: the xorshift generator and the dice it throws.
- `clock`: the seed of a roll.
- `text`: decimal numbers, lists and sums, as an answer prints them.
- `json`: the parameters of an action, and the payload of a trigger.
- `triggers`: what to ask of the host after a roll, step by step.
- `editor`: the action and the trigger that the command editor offers.
- `laws`: what holds of these together.

`app/` is the plugin binary. It takes the requests from the Astra SDK, holds the
roller behind a lock, and makes the calls to the host that the library asks for.

No request fails for its notation: what makes no sense in one is replaced. A roll is
not possible where the system's clock stands before the Unix epoch. The library
reports that (`NoRoll`); the plugin panics.
